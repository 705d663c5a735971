use clust::messages::content::extract_first_function_calls;
use clust::messages::{
    Content, ContentBlock, ContentFlatteningError, FunctionCalls, FunctionCallsDecodingError,
    FunctionCallsExcludingError, ImageContentSource, ImageMediaType, ImageMediaTypeParseError,
    ImageSourceType, TextContentBlock,
};

#[test]
fn flatten_text_round_trips_for_any_text() {
    let content = Content::from("General Motors (GM) is at $34.45.");
    assert_eq!(
        content.flatten_into_text().unwrap(),
        "General Motors (GM) is at $34.45."
    );
    assert_eq!(Content::from("").flatten_into_text().unwrap(), "");
}

#[test]
fn flatten_image_source_round_trips_for_any_source() {
    let source = ImageContentSource::base64(ImageMediaType::Webp, "aGVsbG8=");
    let content = Content::from(source.clone());
    assert_eq!(*content.flatten_into_image_source().unwrap(), source);
}

#[test]
fn flatten_empty_blocks_fails_with_empty() {
    let content = Content::from(vec![]);
    assert_eq!(
        content.flatten_into_text(),
        Err(ContentFlatteningError::Empty)
    );
    assert_eq!(
        content.flatten_into_image_source(),
        Err(ContentFlatteningError::Empty)
    );
}

#[test]
fn flatten_wrong_first_block_fails_with_not_found_target_block() {
    let image_first = Content::from(vec![ContentBlock::from(ImageContentSource::default())]);
    assert_eq!(
        image_first.flatten_into_text(),
        Err(ContentFlatteningError::NotFoundTargetBlock)
    );
    let text_first = Content::from(vec![ContentBlock::from("text")]);
    assert_eq!(
        text_first.flatten_into_image_source(),
        Err(ContentFlatteningError::NotFoundTargetBlock)
    );
    assert_eq!(
        Content::from("text").flatten_into_image_source(),
        Err(ContentFlatteningError::NotFoundTargetBlock)
    );
}

#[test]
fn extract_returns_exact_delimited_span() {
    let text = "before <function_calls>inner</function_calls> after";
    assert_eq!(
        extract_first_function_calls(text).unwrap(),
        "<function_calls>inner</function_calls>"
    );
}

#[test]
fn extract_without_start_delimiter_returns_none() {
    assert_eq!(extract_first_function_calls("no tags here"), None);
    assert_eq!(
        extract_first_function_calls("only an end </function_calls> alone"),
        None
    );
}

#[test]
fn extract_without_end_delimiter_returns_none() {
    assert_eq!(
        extract_first_function_calls("<function_calls> never closed"),
        None
    );
}

#[test]
fn extract_ignores_second_start_delimiter() {
    let text = "<function_calls>a<function_calls>b</function_calls> tail";
    assert_eq!(
        extract_first_function_calls(text).unwrap(),
        "<function_calls>a<function_calls>b</function_calls>"
    );
}

#[test]
fn exclude_function_calls_without_delimiters_fails_with_xml_not_found() {
    let content = Content::from("plain text with no delimiters");
    assert_eq!(
        content.exclude_function_calls(),
        Err(FunctionCallsExcludingError::XmlNotFound)
    );
}

#[test]
fn exclude_function_calls_propagates_flattening_failure() {
    let content = Content::from(vec![]);
    assert_eq!(
        content.exclude_function_calls(),
        Err(FunctionCallsExcludingError::ContentFlattening(
            ContentFlatteningError::Empty
        ))
    );
}

#[test]
fn decode_without_invoke_fails() {
    assert_eq!(
        FunctionCalls::deserialize("<function_calls></function_calls>"),
        Err(FunctionCallsDecodingError::InvokeNotFound)
    );
}

#[test]
fn decode_without_tool_name_fails() {
    assert_eq!(
        FunctionCalls::deserialize("<function_calls><invoke></invoke></function_calls>"),
        Err(FunctionCallsDecodingError::ToolNameNotFound)
    );
    assert_eq!(
        FunctionCalls::deserialize("<function_calls><invoke><tool_name>t</invoke></function_calls>"),
        Err(FunctionCallsDecodingError::ToolNameNotFound)
    );
}

#[test]
fn decode_without_parameters_fails() {
    assert_eq!(
        FunctionCalls::deserialize(
            "<function_calls><invoke><tool_name>t</tool_name></invoke></function_calls>"
        ),
        Err(FunctionCallsDecodingError::ParametersNotFound)
    );
}

#[test]
fn decode_with_malformed_parameter_fails() {
    assert_eq!(
        FunctionCalls::deserialize(
            "<function_calls><invoke><tool_name>t</tool_name><parameters>junk</parameters></invoke></function_calls>"
        ),
        Err(FunctionCallsDecodingError::MalformedParameter)
    );
    assert_eq!(
        FunctionCalls::deserialize(
            "<function_calls><invoke><tool_name>t</tool_name><parameters><a>1</b></parameters></invoke></function_calls>"
        ),
        Err(FunctionCallsDecodingError::MalformedParameter)
    );
}

#[test]
fn decode_keeps_first_occurrence_of_repeated_key() {
    let span = "<function_calls><invoke><tool_name>t</tool_name><parameters>\n<k>first</k>\n<k>second</k>\n<m>other</m>\n</parameters></invoke></function_calls>";
    let decoded = FunctionCalls::deserialize(span).unwrap();
    assert_eq!(
        decoded.invoke.parameters,
        vec![
            ("k".to_string(), "first".to_string()),
            ("m".to_string(), "other".to_string()),
        ]
    );
}

#[test]
fn decode_empty_parameters_gives_empty_mapping() {
    let span = "<function_calls><invoke><tool_name>t</tool_name><parameters></parameters></invoke></function_calls>";
    let decoded = FunctionCalls::deserialize(span).unwrap();
    assert_eq!(decoded.invoke.tool_name, "t");
    assert_eq!(decoded.invoke.parameters, vec![]);
}

#[test]
fn serialize_escapes_special_characters() {
    let content = Content::SingleText("a \"quoted\" line\nwith a \\ slash\tand tab".to_string());
    assert_eq!(
        content.to_json(),
        "\"a \\\"quoted\\\" line\\nwith a \\\\ slash\\tand tab\""
    );
}

#[test]
fn content_json_round_trips_single_text() {
    let content = Content::SingleText("a \"quoted\" line\nwith a \\ slash".to_string());
    let encoded = content.to_json();
    assert_eq!(Content::from_json(encoded.as_str()).unwrap(), content);
}

#[test]
fn content_json_round_trips_multiple_blocks() {
    let image_block = clust::messages::ImageContentBlock::new(ImageContentSource::base64(
        ImageMediaType::Png,
        "ZGF0YQ==",
    ));
    let content = Content::MultipleBlocks(vec![
        ContentBlock::Text(TextContentBlock::new("first \"block\"")),
        ContentBlock::Image(image_block),
        ContentBlock::Text(TextContentBlock::new("third")),
    ]);
    let encoded = content.to_json();
    assert_eq!(Content::from_json(encoded.as_str()).unwrap(), content);
}

#[test]
fn content_json_round_trips_empty_blocks() {
    let content = Content::MultipleBlocks(vec![]);
    let encoded = content.to_json();
    assert_eq!(encoded, "[]");
    assert_eq!(Content::from_json("[]").unwrap(), content);
}

#[test]
fn deserialize_rejects_malformed_content() {
    assert!(Content::from_json("").is_none());
    assert!(Content::from_json("\"unterminated").is_none());
    assert!(Content::from_json("[{\"type\":\"video\"}]").is_none());
    assert!(Content::from_json("\"text\" trailing").is_none());
    assert!(Content::from_json("{\"type\":\"text\"}").is_none());
}

#[test]
fn deserialize_decodes_escapes() {
    let decoded = Content::from_json("\"a\\n\\\"b\\\"\\\\c\\/d\"").unwrap();
    assert_eq!(decoded, Content::SingleText("a\n\"b\"\\c/d".to_string()));
}

#[test]
fn from_path_with_separators() {
    assert_eq!(
        ImageMediaType::from_path("photos/summer/beach.png").unwrap(),
        ImageMediaType::Png
    );
    assert_eq!(
        ImageMediaType::from_path("photos.tar/image").unwrap_err(),
        ImageMediaTypeParseError::NotFound
    );
    assert_eq!(
        ImageMediaType::from_path(".hidden"),
        Err(ImageMediaTypeParseError::NotFound)
    );
    assert_eq!(
        ImageMediaType::from_path("archive.jpg.bak"),
        Err(ImageMediaTypeParseError::NotSupported("bak".to_string()))
    );
}

#[test]
fn media_type_from_json_rejects_unknown() {
    assert!(ImageMediaType::from_json("\"image/bmp\"").is_none());
    assert!(ImageSourceType::from_json("\"url\"").is_none());
}

#[test]
fn end_to_end_invocation_scenario() {
    let content = Content::from("<function_calls>\n<invoke>\n<tool_name>get_ticker_symbol</tool_name>\n<parameters>\n<company_name>General Motors</company_name>\n</parameters>\n</invoke>\n</function_calls>");
    let decoded = content.exclude_function_calls().unwrap();
    assert_eq!(decoded.invoke.tool_name, "get_ticker_symbol");
    assert_eq!(
        decoded.invoke.parameters,
        vec![("company_name".to_string(), "General Motors".to_string())]
    );
}
