use clust::messages::{
    Content, ContentBlock, ContentType, FunctionCalls, ImageContentBlock, ImageContentSource,
    ImageMediaType, ImageMediaTypeParseError, ImageSourceType, Invoke, TextContentBlock,
};

#[test]
fn from_str() {
    assert_eq!(
        Content::from("text"),
        Content::SingleText("text".to_string())
    );
}

#[test]
fn default_content_type() {
    assert_eq!(ContentType::default(), ContentType::Text);
}

#[test]
fn display_content_type() {
    assert_eq!(ContentType::Text.to_string(), "text");
    assert_eq!(ContentType::Image.to_string(), "image");
    assert_eq!(ContentType::TextDelta.to_string(), "text_delta");
}

#[test]
fn serialize_content_type() {
    assert_eq!(ContentType::Text.to_json(), "\"text\"");
    assert_eq!(ContentType::Image.to_json(), "\"image\"");
    assert_eq!(ContentType::TextDelta.to_json(), "\"text_delta\"");
}

#[test]
fn deserialize_content_type() {
    assert_eq!(
        ContentType::from_json("\"text\"").unwrap(),
        ContentType::Text
    );
    assert_eq!(
        ContentType::from_json("\"image\"").unwrap(),
        ContentType::Image
    );
    assert_eq!(
        ContentType::from_json("\"text_delta\"").unwrap(),
        ContentType::TextDelta
    );
}

#[test]
fn default_image_source_type() {
    assert_eq!(ImageSourceType::default(), ImageSourceType::Base64);
}

#[test]
fn display_image_source_type() {
    assert_eq!(ImageSourceType::Base64.to_string(), "base64");
}

#[test]
fn serialize_image_source_type() {
    assert_eq!(ImageSourceType::Base64.to_json(), "\"base64\"");
}

#[test]
fn deserialize_image_source_type() {
    assert_eq!(
        ImageSourceType::from_json("\"base64\"").unwrap(),
        ImageSourceType::Base64
    );
}

#[test]
fn default_image_media_type() {
    assert_eq!(ImageMediaType::default(), ImageMediaType::Jpeg);
}

#[test]
fn display_image_media_type() {
    assert_eq!(ImageMediaType::Jpeg.to_string(), "image/jpeg");
    assert_eq!(ImageMediaType::Png.to_string(), "image/png");
    assert_eq!(ImageMediaType::Gif.to_string(), "image/gif");
    assert_eq!(ImageMediaType::Webp.to_string(), "image/webp");
}

#[test]
fn serialize_image_media_type() {
    assert_eq!(ImageMediaType::Jpeg.to_json(), "\"image/jpeg\"");
    assert_eq!(ImageMediaType::Png.to_json(), "\"image/png\"");
    assert_eq!(ImageMediaType::Gif.to_json(), "\"image/gif\"");
    assert_eq!(ImageMediaType::Webp.to_json(), "\"image/webp\"");
}

#[test]
fn deserialize_image_media_type() {
    assert_eq!(
        ImageMediaType::from_json("\"image/jpeg\"").unwrap(),
        ImageMediaType::Jpeg
    );
    assert_eq!(
        ImageMediaType::from_json("\"image/png\"").unwrap(),
        ImageMediaType::Png
    );
    assert_eq!(
        ImageMediaType::from_json("\"image/gif\"").unwrap(),
        ImageMediaType::Gif
    );
    assert_eq!(
        ImageMediaType::from_json("\"image/webp\"").unwrap(),
        ImageMediaType::Webp
    );
}

#[test]
fn from_path_image_media_type() {
    let path = "image.jpeg";
    assert_eq!(
        ImageMediaType::from_path(path).unwrap(),
        ImageMediaType::Jpeg
    );

    let path = "image.png";
    assert_eq!(
        ImageMediaType::from_path(path).unwrap(),
        ImageMediaType::Png
    );

    let path = "image.gif";
    assert_eq!(
        ImageMediaType::from_path(path).unwrap(),
        ImageMediaType::Gif
    );

    let path = "image.webp";
    assert_eq!(
        ImageMediaType::from_path(path).unwrap(),
        ImageMediaType::Webp
    );

    let path = "image.bmp";
    assert_eq!(
        ImageMediaType::from_path(path),
        Err(ImageMediaTypeParseError::NotSupported("bmp".to_string()))
    );

    let path = "image";
    assert!(ImageMediaType::from_path(path).is_err());
}

#[test]
fn new_image_content_source() {
    let image_content_source = ImageContentSource::base64(ImageMediaType::Jpeg, "data");
    assert_eq!(
        image_content_source,
        ImageContentSource {
            _type: ImageSourceType::Base64,
            media_type: ImageMediaType::Jpeg,
            data: "data".to_string(),
        }
    );
}

#[test]
fn default_image_content_source() {
    assert_eq!(
        ImageContentSource::default(),
        ImageContentSource {
            _type: ImageSourceType::Base64,
            media_type: ImageMediaType::Jpeg,
            data: String::new(),
        }
    );
}

#[test]
fn display_image_content_source() {
    let image_content_source = ImageContentSource {
        _type: ImageSourceType::Base64,
        media_type: ImageMediaType::Jpeg,
        data: "data".to_string(),
    };
    assert_eq!(
        image_content_source.to_string(),
        "{\n  \"type\": \"base64\",\n  \"media_type\": \"image/jpeg\",\n  \"data\": \"data\"\n}"
    );
}

#[test]
fn serialize_image_content_source() {
    let image_content_source = ImageContentSource {
        _type: ImageSourceType::Base64,
        media_type: ImageMediaType::Jpeg,
        data: "data".to_string(),
    };
    assert_eq!(
        image_content_source.to_json(),
        "{\"type\":\"base64\",\"media_type\":\"image/jpeg\",\"data\":\"data\"}"
    );
}

#[test]
fn deserialize_image_content_source() {
    let image_content_source = ImageContentSource {
        _type: ImageSourceType::Base64,
        media_type: ImageMediaType::Jpeg,
        data: "data".to_string(),
    };
    assert_eq!(
        ImageContentSource::from_json(
            "{\"type\":\"base64\",\"media_type\":\"image/jpeg\",\"data\":\"data\"}"
        )
        .unwrap(),
        image_content_source
    );
}

#[test]
fn new_text_content_block() {
    let text_content_block = TextContentBlock::new("text");
    assert_eq!(
        text_content_block,
        TextContentBlock {
            _type: ContentType::Text,
            text: "text".to_string(),
        }
    );
}

#[test]
fn default_text_content_block() {
    assert_eq!(
        TextContentBlock::default(),
        TextContentBlock {
            _type: ContentType::Text,
            text: String::new(),
        }
    );
}

#[test]
fn display_text_content_block() {
    let text_content_block = TextContentBlock::new("text");
    assert_eq!(
        text_content_block.to_string(),
        "{\n  \"type\": \"text\",\n  \"text\": \"text\"\n}"
    );
}

#[test]
fn serialize_text_content_block() {
    let text_content_block = TextContentBlock::new("text");
    assert_eq!(
        text_content_block.to_json(),
        "{\"type\":\"text\",\"text\":\"text\"}"
    );
}

#[test]
fn deserialize_text_content_block() {
    let text_content_block = TextContentBlock::new("text");
    assert_eq!(
        TextContentBlock::from_json("{\"type\":\"text\",\"text\":\"text\"}").unwrap(),
        text_content_block
    );
}

#[test]
fn new_image_content_block() {
    let image_content_block = ImageContentBlock::new(ImageContentSource::default());
    assert_eq!(
        image_content_block,
        ImageContentBlock {
            _type: ContentType::Image,
            source: ImageContentSource::default(),
        }
    );
}

#[test]
fn default_image_content_block() {
    assert_eq!(
        ImageContentBlock::default(),
        ImageContentBlock {
            _type: ContentType::Image,
            source: ImageContentSource::default(),
        }
    );
}

#[test]
fn display_image_content_block() {
    let image_content_block = ImageContentBlock::new(ImageContentSource::default());
    assert_eq!(
        image_content_block.to_string(),
        "{\n  \"type\": \"image\",\n  \"source\": {\n    \"type\": \"base64\",\n    \"media_type\": \"image/jpeg\",\n    \"data\": \"\"\n  }\n}"
    );
}

#[test]
fn serialize_image_content_block() {
    let image_content_block = ImageContentBlock::new(ImageContentSource::default());
    assert_eq!(
        image_content_block.to_json(),
        "{\"type\":\"image\",\"source\":{\"type\":\"base64\",\"media_type\":\"image/jpeg\",\"data\":\"\"}}"
    );
}

#[test]
fn deserialize_image_content_block() {
    let image_content_block = ImageContentBlock::new(ImageContentSource::default());
    assert_eq!(
        ImageContentBlock::from_json(
            "{\"type\":\"image\",\"source\":{\"type\":\"base64\",\"media_type\":\"image/jpeg\",\"data\":\"\"}}"
        )
        .unwrap(),
        image_content_block
    );
}

#[test]
fn new_content_block() {
    let content_block = ContentBlock::Text(TextContentBlock::new("text"));
    assert_eq!(
        content_block,
        ContentBlock::Text(TextContentBlock {
            _type: ContentType::Text,
            text: "text".to_string(),
        })
    );

    let content_block = ContentBlock::Image(ImageContentBlock::new(ImageContentSource::default()));
    assert_eq!(
        content_block,
        ContentBlock::Image(ImageContentBlock {
            _type: ContentType::Image,
            source: ImageContentSource::default(),
        })
    );
}

#[test]
fn default_content_block() {
    assert_eq!(
        ContentBlock::default(),
        ContentBlock::Text(TextContentBlock::default())
    );
}

#[test]
fn display_content_block() {
    let content_block = ContentBlock::Text(TextContentBlock::new("text"));
    assert_eq!(
        content_block.to_string(),
        "{\n  \"type\": \"text\",\n  \"text\": \"text\"\n}"
    );

    let content_block = ContentBlock::Image(ImageContentBlock::new(ImageContentSource::default()));
    assert_eq!(
        content_block.to_string(),
        "{\n  \"type\": \"image\",\n  \"source\": {\n    \"type\": \"base64\",\n    \"media_type\": \"image/jpeg\",\n    \"data\": \"\"\n  }\n}"
    );
}

#[test]
fn serialize_content_block() {
    let content_block = ContentBlock::Text(TextContentBlock::new("text"));
    assert_eq!(
        content_block.to_json(),
        "{\"type\":\"text\",\"text\":\"text\"}"
    );

    let content_block = ContentBlock::Image(ImageContentBlock::new(ImageContentSource::default()));
    assert_eq!(
        content_block.to_json(),
        "{\"type\":\"image\",\"source\":{\"type\":\"base64\",\"media_type\":\"image/jpeg\",\"data\":\"\"}}"
    );
}

#[test]
fn deserialize_content_block() {
    let content_block = ContentBlock::Text(TextContentBlock::new("text"));
    assert_eq!(
        ContentBlock::from_json("{\"type\":\"text\",\"text\":\"text\"}").unwrap(),
        content_block
    );

    let content_block = ContentBlock::Image(ImageContentBlock::new(ImageContentSource::default()));
    assert_eq!(
        ContentBlock::from_json("{\"type\":\"image\",\"source\":{\"type\":\"base64\",\"media_type\":\"image/jpeg\",\"data\":\"\"}}").unwrap(),
        content_block
    );
}

#[test]
fn from_content_block() {
    assert_eq!(
        ContentBlock::from("text"),
        ContentBlock::Text(TextContentBlock::new("text"))
    );

    let content_block: ContentBlock = "text".into();
    assert_eq!(
        content_block,
        ContentBlock::Text(TextContentBlock::new("text"))
    );

    assert_eq!(
        ContentBlock::from(ImageContentSource::default()),
        ContentBlock::Image(ImageContentBlock::new(ImageContentSource::default()))
    );

    let content_block: ContentBlock = ImageContentSource::default().into();
    assert_eq!(
        content_block,
        ContentBlock::Image(ImageContentBlock::new(ImageContentSource::default()))
    );
}

#[test]
fn new_content() {
    let content = Content::SingleText("text".to_string());
    assert_eq!(content, Content::SingleText("text".to_string()));

    let content = Content::MultipleBlocks(vec![
        ContentBlock::Text(TextContentBlock::new("text")),
        ContentBlock::Image(ImageContentBlock::new(ImageContentSource::default())),
    ]);
    assert_eq!(
        content,
        Content::MultipleBlocks(vec![
            ContentBlock::Text(TextContentBlock::new("text")),
            ContentBlock::Image(ImageContentBlock::new(ImageContentSource::default())),
        ])
    );
}

#[test]
fn default_content() {
    assert_eq!(Content::default(), Content::SingleText(String::new()));
}

#[test]
fn display_content() {
    let content = Content::SingleText("text".to_string());
    assert_eq!(content.to_string(), "\"text\"");

    let content = Content::MultipleBlocks(vec![
        ContentBlock::Text(TextContentBlock::new("text")),
        ContentBlock::Image(ImageContentBlock::new(ImageContentSource::default())),
    ]);
    assert_eq!(
        content.to_string(),
        "[\n  {\n    \"type\": \"text\",\n    \"text\": \"text\"\n  },\n  {\n    \"type\": \"image\",\n    \"source\": {\n      \"type\": \"base64\",\n      \"media_type\": \"image/jpeg\",\n      \"data\": \"\"\n    }\n  }\n]"
    );
}

#[test]
fn serialize_content() {
    let content = Content::SingleText("text".to_string());
    assert_eq!(content.to_json(), "\"text\"");

    let content = Content::MultipleBlocks(vec![
        ContentBlock::Text(TextContentBlock::new("text")),
        ContentBlock::Image(ImageContentBlock::new(ImageContentSource::default())),
    ]);
    assert_eq!(
        content.to_json(),
        "[{\"type\":\"text\",\"text\":\"text\"},{\"type\":\"image\",\"source\":{\"type\":\"base64\",\"media_type\":\"image/jpeg\",\"data\":\"\"}}]"
    );
}

#[test]
fn deserialize_content() {
    let content = Content::SingleText("text".to_string());
    assert_eq!(Content::from_json("\"text\"").unwrap(), content);

    let content = Content::MultipleBlocks(vec![
        ContentBlock::Text(TextContentBlock::new("text")),
        ContentBlock::Image(ImageContentBlock::new(ImageContentSource::default())),
    ]);
    assert_eq!(
        Content::from_json("[{\"type\":\"text\",\"text\":\"text\"},{\"type\":\"image\",\"source\":{\"type\":\"base64\",\"media_type\":\"image/jpeg\",\"data\":\"\"}}]").unwrap(),
        content
    );
}

#[test]
fn from_content() {
    assert_eq!(
        Content::from("text"),
        Content::SingleText("text".to_string())
    );

    let content: Content = "text".into();
    assert_eq!(content, Content::SingleText("text".to_string()));

    assert_eq!(
        Content::from(vec![ContentBlock::from("text")]),
        Content::MultipleBlocks(vec![ContentBlock::Text(TextContentBlock::new("text"))])
    );

    let content: Content = vec!["text".into()].into();
    assert_eq!(
        content,
        Content::MultipleBlocks(vec![ContentBlock::Text(TextContentBlock::new("text"))])
    );

    assert_eq!(
        Content::from(ImageContentSource::default()),
        Content::MultipleBlocks(vec![ContentBlock::Image(ImageContentBlock::new(
            ImageContentSource::default()
        ))])
    );

    let content: Content = ImageContentSource::default().into();
    assert_eq!(
        content,
        Content::MultipleBlocks(vec![ContentBlock::Image(ImageContentBlock::new(
            ImageContentSource::default()
        ))])
    );
}

#[test]
fn flatten_into_text() {
    assert_eq!(Content::from("text").flatten_into_text().unwrap(), "text");

    assert_eq!(
        Content::from(vec![
            ContentBlock::from("text"),
            ContentBlock::from(ImageContentSource::default()),
        ])
        .flatten_into_text()
        .unwrap(),
        "text"
    );

    assert_eq!(
        Content::from(vec![
            ContentBlock::from("text"),
            ContentBlock::from("second"),
        ])
        .flatten_into_text()
        .unwrap(),
        "text"
    );

    assert!(Content::from(vec![]).flatten_into_text().is_err());

    assert!(Content::from(ImageContentSource::default())
        .flatten_into_text()
        .is_err());

    assert!(Content::from(vec![
        ContentBlock::from(ImageContentSource::default()),
        ContentBlock::from("text"),
    ])
    .flatten_into_text()
    .is_err());
}

#[test]
fn flatten_into_image_source() {
    assert!(Content::from("text").flatten_into_image_source().is_err());

    assert!(Content::from(vec![
        ContentBlock::from("text"),
        ContentBlock::from(ImageContentSource::default()),
    ])
    .flatten_into_image_source()
    .is_err());

    assert!(Content::from(vec![
        ContentBlock::from("text"),
        ContentBlock::from("second"),
    ])
    .flatten_into_image_source()
    .is_err());

    assert!(Content::from(vec![]).flatten_into_image_source().is_err());

    assert_eq!(
        *Content::from(ImageContentSource::default())
            .flatten_into_image_source()
            .unwrap(),
        ImageContentSource::default()
    );

    assert_eq!(
        *Content::from(vec![
            ContentBlock::from(ImageContentSource::default()),
            ContentBlock::from("text"),
        ])
        .flatten_into_image_source()
        .unwrap(),
        ImageContentSource::default()
    );
}

#[test]
fn exclude_function_calls() {
    let content =
        Content::from("To find the current stock price for General Motors, I will:\n\n<function_calls>\n<invoke>\n<tool_name>get_ticker_symbol</tool_name>\n<parameters>\n<company_name>General Motors</company_name>\n</parameters>\n</invoke>\n</function_calls>");

    let function_calls = content.exclude_function_calls().unwrap();
    assert_eq!(
        function_calls,
        FunctionCalls {
            invoke: Invoke {
                tool_name: "get_ticker_symbol".to_string(),
                parameters: vec![(
                    "company_name".to_string(),
                    "General Motors".to_string()
                )],
            }
        },
    );

    let content =
        Content::from("To find the current stock price for General Motors, I will:\n\n<function_calls>\n<invoke>\n<tool_name>get_ticker_symbol</tool_name>\n<parameters>\n<company_name>General Motors</company_name>\n</parameters>\n</invoke>\n</function_calls>\n\nThis returns: \"GM\"\n\nNow that I have the ticker symbol, I can get the current price:\n\n<function_calls>\n<invoke>\n<tool_name>get_current_stock_price</tool_name>\n<parameters>\n<symbol>GM</symbol>\n</parameters>\n</invoke>\n</function_calls>\n\nThe current stock price of General Motors (GM) is $34.45.");

    let function_calls = content.exclude_function_calls().unwrap();
    assert_eq!(
        function_calls,
        FunctionCalls {
            invoke: Invoke {
                tool_name: "get_ticker_symbol".to_string(),
                parameters: vec![(
                    "company_name".to_string(),
                    "General Motors".to_string()
                )],
            }
        },
    );

    let content = Content::from("text");
    assert!(content.exclude_function_calls().is_err());
}

#[test]
fn test_extract_first_function_calls() {
    let text = r#"
To find the current stock price for General Motors, I will:

<function_calls>
<invoke>
<tool_name>get_ticker_symbol</tool_name>
<parameters>
<company_name>General Motors</company_name>
</parameters>
</invoke>
</function_calls>

<!-- This is a commented out section, which should not be considered -->
<!-- <function_calls>example</function_calls> -->

This is another <function_calls>example</function_calls> for testing."#;

    let extracted_call = clust::messages::content::extract_first_function_calls(text);
    assert_eq!(
        extracted_call.unwrap(),
        "<function_calls>\n<invoke>\n<tool_name>get_ticker_symbol</tool_name>\n<parameters>\n<company_name>General Motors</company_name>\n</parameters>\n</invoke>\n</function_calls>"
    );
}
