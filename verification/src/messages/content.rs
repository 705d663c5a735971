//! The content model: message content is either a single text or an ordered
//! sequence of typed blocks, with projections back to a single modality and
//! conversions from plain values.

use vstd::prelude::*;

use crate::messages::error::{ContentFlatteningError, FunctionCallsExcludingError, ImageMediaTypeParseError, ImageMediaTypeParseErrorView};
use crate::messages::function_calls::{spec_deserialize_function_calls, FunctionCalls, InvokeView};
use crate::text::{chars_eq_str, chars_to_string, contains_at, find_first, find_last_char, find_pattern, last_index_of, str_to_chars, subrange_vec};

verus! {

use vstd::string::StrSliceExecFns;

/// The content type tag of a block.
#[derive(Debug, Clone, Copy, PartialEq, Eq, Hash, Structural)]
pub enum ContentType {
    /// `text`
    Text,
    /// `image`
    Image,
    /// `text_delta`
    TextDelta,
}

/// The wire name of a content type tag.
pub open spec fn spec_content_type_str(t: ContentType) -> Seq<char> {
    match t {
        ContentType::Text => "text"@,
        ContentType::Image => "image"@,
        ContentType::TextDelta => "text_delta"@,
    }
}

impl ContentType {
    /// Returns the wire name of the tag.
    pub fn to_string(&self) -> (r: String)
        ensures
            r@ == spec_content_type_str(*self),
    {
        match self {
            ContentType::Text => "text".to_owned(),
            ContentType::Image => "image".to_owned(),
            ContentType::TextDelta => "text_delta".to_owned(),
        }
    }
}

impl Default for ContentType {
    /// The default tag is `text`.
    fn default() -> (r: Self)
        ensures
            r == ContentType::Text,
    {
        ContentType::Text
    }
}

/// The encoding kind of an image source.
#[derive(Debug, Clone, Copy, PartialEq, Eq, Hash, Structural)]
pub enum ImageSourceType {
    /// `base64`
    Base64,
}

/// The wire name of an image source encoding kind.
pub open spec fn spec_image_source_type_str(t: ImageSourceType) -> Seq<char> {
    match t {
        ImageSourceType::Base64 => "base64"@,
    }
}

impl ImageSourceType {
    /// Returns the wire name of the encoding kind.
    pub fn to_string(&self) -> (r: String)
        ensures
            r@ == spec_image_source_type_str(*self),
    {
        match self {
            ImageSourceType::Base64 => "base64".to_owned(),
        }
    }
}

impl Default for ImageSourceType {
    /// The default encoding kind is `base64`.
    fn default() -> (r: Self)
        ensures
            r == ImageSourceType::Base64,
    {
        ImageSourceType::Base64
    }
}

/// The media type of an image.
#[derive(Debug, Clone, Copy, PartialEq, Eq, Hash, Structural)]
pub enum ImageMediaType {
    /// `image/jpeg`
    Jpeg,
    /// `image/png`
    Png,
    /// `image/gif`
    Gif,
    /// `image/webp`
    Webp,
}

/// The wire name of an image media type.
pub open spec fn spec_image_media_type_str(t: ImageMediaType) -> Seq<char> {
    match t {
        ImageMediaType::Jpeg => "image/jpeg"@,
        ImageMediaType::Png => "image/png"@,
        ImageMediaType::Gif => "image/gif"@,
        ImageMediaType::Webp => "image/webp"@,
    }
}

impl ImageMediaType {
    /// Returns the wire name of the media type.
    pub fn to_string(&self) -> (r: String)
        ensures
            r@ == spec_image_media_type_str(*self),
    {
        match self {
            ImageMediaType::Jpeg => "image/jpeg".to_owned(),
            ImageMediaType::Png => "image/png".to_owned(),
            ImageMediaType::Gif => "image/gif".to_owned(),
            ImageMediaType::Webp => "image/webp".to_owned(),
        }
    }
}

impl Default for ImageMediaType {
    /// The default media type is `image/jpeg`.
    fn default() -> (r: Self)
        ensures
            r == ImageMediaType::Jpeg,
    {
        ImageMediaType::Jpeg
    }
}

/// The suffix of `path` after its last separator: the final path component.
pub open spec fn spec_file_name(path: Seq<char>) -> Seq<char> {
    match last_index_of(path, '/') {
        Some(i) => path.subrange(i + 1, path.len() as int),
        None => path,
    }
}

/// The extension of a file name: the part after the last `.`, provided that
/// dot is not the leading character; `None` when there is no such dot.
pub open spec fn spec_extension(name: Seq<char>) -> Option<Seq<char>> {
    match last_index_of(name, '.') {
        Some(p) => if p > 0 {
            Some(name.subrange(p + 1, name.len() as int))
        } else {
            None
        },
        None => None,
    }
}

/// The media type a path maps to: by its extension, with `jpeg`/`jpg`,
/// `png`, `gif` and `webp` supported; any other extension is rejected as
/// not supported, and a path without an extension as not found.
pub open spec fn spec_media_type_from_path(path: Seq<char>) -> Result<
    ImageMediaType,
    ImageMediaTypeParseErrorView,
> {
    match spec_extension(spec_file_name(path)) {
        Some(ext) => if ext == "jpeg"@ || ext == "jpg"@ {
            Ok(ImageMediaType::Jpeg)
        } else if ext == "png"@ {
            Ok(ImageMediaType::Png)
        } else if ext == "gif"@ {
            Ok(ImageMediaType::Gif)
        } else if ext == "webp"@ {
            Ok(ImageMediaType::Webp)
        } else {
            Err(ImageMediaTypeParseErrorView::NotSupported(ext))
        },
        None => Err(ImageMediaTypeParseErrorView::NotFound),
    }
}

impl ImageMediaType {
    /// Creates the media type from the extension of the path.
    pub fn from_path(path: &str) -> (r: Result<Self, ImageMediaTypeParseError>)
        ensures
            match r {
                Ok(m) => spec_media_type_from_path(path@) == Ok::<
                    ImageMediaType,
                    ImageMediaTypeParseErrorView,
                >(m),
                Err(e) => spec_media_type_from_path(path@) == Err::<
                    ImageMediaType,
                    ImageMediaTypeParseErrorView,
                >(e@),
            },
    {
        let chars = str_to_chars(path);
        proof {
            crate::text::lemma_last_index_of_characterization(chars@, '/');
        }
        let name_start: usize = match find_last_char(&chars, '/') {
            Some(i) => i + 1,
            None => 0,
        };
        let name = subrange_vec(&chars, name_start, chars.len());
        assert(name@ == spec_file_name(path@));
        proof {
            crate::text::lemma_last_index_of_characterization(name@, '.');
        }
        match find_last_char(&name, '.') {
            Some(p) => {
                if p == 0 {
                    Err(ImageMediaTypeParseError::NotFound)
                } else {
                    let ext = subrange_vec(&name, p + 1, name.len());
                    if chars_eq_str(&ext, "jpeg") || chars_eq_str(&ext, "jpg") {
                        Ok(ImageMediaType::Jpeg)
                    } else if chars_eq_str(&ext, "png") {
                        Ok(ImageMediaType::Png)
                    } else if chars_eq_str(&ext, "gif") {
                        Ok(ImageMediaType::Gif)
                    } else if chars_eq_str(&ext, "webp") {
                        Ok(ImageMediaType::Webp)
                    } else {
                        Err(ImageMediaTypeParseError::NotSupported(chars_to_string(&ext)))
                    }
                }
            },
            None => Err(ImageMediaTypeParseError::NotFound),
        }
    }
}

/// The image content source: encoding kind, media type, and encoded data.
#[derive(Debug, Clone)]
pub struct ImageContentSource {
    /// The encoding kind.
    pub _type: ImageSourceType,
    /// The media type.
    pub media_type: ImageMediaType,
    /// The data of the image.
    pub data: String,
}

/// The view of an `ImageContentSource`.
pub struct ImageContentSourceView {
    pub _type: ImageSourceType,
    pub media_type: ImageMediaType,
    pub data: Seq<char>,
}

impl View for ImageContentSource {
    type V = ImageContentSourceView;

    open spec fn view(&self) -> ImageContentSourceView {
        ImageContentSourceView { _type: self._type, media_type: self.media_type, data: self.data@ }
    }
}

impl PartialEq for ImageContentSource {
    fn eq(&self, other: &Self) -> (r: bool) {
        self._type == other._type && self.media_type == other.media_type && self.data
            == other.data
    }
}

impl vstd::std_specs::cmp::PartialEqSpecImpl for ImageContentSource {
    open spec fn obeys_eq_spec() -> bool {
        true
    }

    open spec fn eq_spec(&self, other: &Self) -> bool {
        self@ == other@
    }
}

impl Default for ImageContentSource {
    /// The default source: base64 encoding, `image/jpeg`, empty data.
    fn default() -> (r: Self)
        ensures
            r@ == (ImageContentSourceView {
                _type: ImageSourceType::Base64,
                media_type: ImageMediaType::Jpeg,
                data: Seq::<char>::empty(),
            }),
    {
        let r = ImageContentSource {
            _type: ImageSourceType::Base64,
            media_type: ImageMediaType::Jpeg,
            data: String::new(),
        };
        assert(r@.data =~= Seq::<char>::empty());
        r
    }
}

impl ImageContentSource {
    /// Creates a new image content source from base64-encoded image data.
    pub fn base64(media_type: ImageMediaType, data: &str) -> (r: Self)
        ensures
            r@ == (ImageContentSourceView {
                _type: ImageSourceType::Base64,
                media_type: media_type,
                data: data@,
            }),
    {
        ImageContentSource { _type: ImageSourceType::Base64, media_type, data: data.to_owned() }
    }
}

/// The text content block.
#[derive(Debug, Clone)]
pub struct TextContentBlock {
    /// The content type tag. It is `text` on every constructed block.
    pub _type: ContentType,
    /// The text content.
    pub text: String,
}

/// The view of a `TextContentBlock`.
pub struct TextContentBlockView {
    pub _type: ContentType,
    pub text: Seq<char>,
}

impl View for TextContentBlock {
    type V = TextContentBlockView;

    open spec fn view(&self) -> TextContentBlockView {
        TextContentBlockView { _type: self._type, text: self.text@ }
    }
}

impl PartialEq for TextContentBlock {
    fn eq(&self, other: &Self) -> (r: bool) {
        self._type == other._type && self.text == other.text
    }
}

impl vstd::std_specs::cmp::PartialEqSpecImpl for TextContentBlock {
    open spec fn obeys_eq_spec() -> bool {
        true
    }

    open spec fn eq_spec(&self, other: &Self) -> bool {
        self@ == other@
    }
}

impl Default for TextContentBlock {
    /// The default block: tag `text`, empty text.
    fn default() -> (r: Self)
        ensures
            r@ == (TextContentBlockView { _type: ContentType::Text, text: Seq::<char>::empty() }),
    {
        let r = TextContentBlock { _type: ContentType::Text, text: String::new() };
        assert(r@.text =~= Seq::<char>::empty());
        r
    }
}

impl TextContentBlock {
    /// Creates a new text content block.
    pub fn new(text: &str) -> (r: Self)
        ensures
            r@ == (TextContentBlockView { _type: ContentType::Text, text: text@ }),
    {
        TextContentBlock { _type: ContentType::Text, text: text.to_owned() }
    }
}

impl From<String> for TextContentBlock {
    fn from(text: String) -> (r: Self)
        ensures
            r@ == (TextContentBlockView { _type: ContentType::Text, text: text@ }),
    {
        TextContentBlock { _type: ContentType::Text, text }
    }
}

impl vstd::std_specs::convert::FromSpecImpl<String> for TextContentBlock {
    open spec fn obeys_from_spec() -> bool {
        true
    }

    open spec fn from_spec(text: String) -> Self {
        TextContentBlock { _type: ContentType::Text, text }
    }
}

impl From<&str> for TextContentBlock {
    fn from(text: &str) -> (r: Self)
        ensures
            r@ == (TextContentBlockView { _type: ContentType::Text, text: text@ }),
    {
        TextContentBlock::new(text)
    }
}

// A fresh `String` is allocated when converting from `&str`, and no
// spec-level expression names that allocation, so these conversions carry
// their contracts on the `from` methods themselves rather than through
// `from_spec`.
impl vstd::std_specs::convert::FromSpecImpl<&str> for TextContentBlock {
    open spec fn obeys_from_spec() -> bool {
        false
    }

    open spec fn from_spec(text: &str) -> Self {
        arbitrary()
    }
}

/// The image content block.
#[derive(Debug, Clone)]
pub struct ImageContentBlock {
    /// The content type tag. It is `image` on every constructed block.
    pub _type: ContentType,
    /// The image content source.
    pub source: ImageContentSource,
}

/// The view of an `ImageContentBlock`.
pub struct ImageContentBlockView {
    pub _type: ContentType,
    pub source: ImageContentSourceView,
}

impl View for ImageContentBlock {
    type V = ImageContentBlockView;

    open spec fn view(&self) -> ImageContentBlockView {
        ImageContentBlockView { _type: self._type, source: self.source@ }
    }
}

impl PartialEq for ImageContentBlock {
    fn eq(&self, other: &Self) -> (r: bool) {
        self._type == other._type && self.source.eq(&other.source)
    }
}

impl vstd::std_specs::cmp::PartialEqSpecImpl for ImageContentBlock {
    open spec fn obeys_eq_spec() -> bool {
        true
    }

    open spec fn eq_spec(&self, other: &Self) -> bool {
        self@ == other@
    }
}

impl Default for ImageContentBlock {
    /// The default block: tag `image`, default source.
    fn default() -> (r: Self)
        ensures
            r@ == (ImageContentBlockView {
                _type: ContentType::Image,
                source: ImageContentSourceView {
                    _type: ImageSourceType::Base64,
                    media_type: ImageMediaType::Jpeg,
                    data: Seq::<char>::empty(),
                },
            }),
    {
        ImageContentBlock { _type: ContentType::Image, source: ImageContentSource::default() }
    }
}

impl ImageContentBlock {
    /// Creates a new image content block.
    pub fn new(source: ImageContentSource) -> (r: Self)
        ensures
            r@ == (ImageContentBlockView { _type: ContentType::Image, source: source@ }),
    {
        ImageContentBlock { _type: ContentType::Image, source }
    }
}

impl From<ImageContentSource> for ImageContentBlock {
    fn from(source: ImageContentSource) -> (r: Self)
        ensures
            r@ == (ImageContentBlockView { _type: ContentType::Image, source: source@ }),
    {
        ImageContentBlock { _type: ContentType::Image, source }
    }
}

impl vstd::std_specs::convert::FromSpecImpl<ImageContentSource> for ImageContentBlock {
    open spec fn obeys_from_spec() -> bool {
        true
    }

    open spec fn from_spec(source: ImageContentSource) -> Self {
        ImageContentBlock { _type: ContentType::Image, source }
    }
}

/// One unit of message content, tagged as text or image.
#[derive(Debug, Clone)]
pub enum ContentBlock {
    /// The text content block.
    Text(TextContentBlock),
    /// The image content block.
    Image(ImageContentBlock),
}

/// The view of a `ContentBlock`.
pub enum ContentBlockView {
    Text(TextContentBlockView),
    Image(ImageContentBlockView),
}

impl View for ContentBlock {
    type V = ContentBlockView;

    open spec fn view(&self) -> ContentBlockView {
        match self {
            ContentBlock::Text(block) => ContentBlockView::Text(block@),
            ContentBlock::Image(block) => ContentBlockView::Image(block@),
        }
    }
}

impl PartialEq for ContentBlock {
    fn eq(&self, other: &Self) -> (r: bool) {
        match (self, other) {
            (ContentBlock::Text(a), ContentBlock::Text(b)) => a.eq(b),
            (ContentBlock::Image(a), ContentBlock::Image(b)) => a.eq(b),
            _ => false,
        }
    }
}

impl vstd::std_specs::cmp::PartialEqSpecImpl for ContentBlock {
    open spec fn obeys_eq_spec() -> bool {
        true
    }

    open spec fn eq_spec(&self, other: &Self) -> bool {
        self@ == other@
    }
}

impl Default for ContentBlock {
    /// The default block is the default text block.
    fn default() -> (r: Self)
        ensures
            r@ == ContentBlockView::Text(
                TextContentBlockView { _type: ContentType::Text, text: Seq::<char>::empty() },
            ),
    {
        ContentBlock::Text(TextContentBlock::default())
    }
}

impl From<String> for ContentBlock {
    fn from(text: String) -> (r: Self)
        ensures
            r@ == ContentBlockView::Text(
                TextContentBlockView { _type: ContentType::Text, text: text@ },
            ),
    {
        ContentBlock::Text(TextContentBlock::from(text))
    }
}

impl vstd::std_specs::convert::FromSpecImpl<String> for ContentBlock {
    open spec fn obeys_from_spec() -> bool {
        true
    }

    open spec fn from_spec(text: String) -> Self {
        ContentBlock::Text(TextContentBlock { _type: ContentType::Text, text })
    }
}

impl vstd::std_specs::convert::FromSpecImpl<&str> for ContentBlock {
    open spec fn obeys_from_spec() -> bool {
        false
    }

    open spec fn from_spec(text: &str) -> Self {
        arbitrary()
    }
}

impl From<&str> for ContentBlock {
    fn from(text: &str) -> (r: Self)
        ensures
            r@ == ContentBlockView::Text(
                TextContentBlockView { _type: ContentType::Text, text: text@ },
            ),
    {
        ContentBlock::Text(TextContentBlock::new(text))
    }
}

impl From<ImageContentSource> for ContentBlock {
    fn from(image: ImageContentSource) -> (r: Self)
        ensures
            r@ == ContentBlockView::Image(
                ImageContentBlockView { _type: ContentType::Image, source: image@ },
            ),
    {
        ContentBlock::Image(ImageContentBlock { _type: ContentType::Image, source: image })
    }
}

impl vstd::std_specs::convert::FromSpecImpl<ImageContentSource> for ContentBlock {
    open spec fn obeys_from_spec() -> bool {
        true
    }

    open spec fn from_spec(image: ImageContentSource) -> Self {
        ContentBlock::Image(ImageContentBlock { _type: ContentType::Image, source: image })
    }
}

/// The view of a sequence of content blocks.
pub open spec fn spec_blocks_view(blocks: Seq<ContentBlock>) -> Seq<ContentBlockView> {
    blocks.map_values(|b: ContentBlock| b@)
}

/// The content of a message: a single text, or multiple typed blocks.
///
/// On the wire a `SingleText` collapses to a bare JSON string and
/// `MultipleBlocks` to a JSON array of tagged objects.
#[derive(Debug, Clone)]
pub enum Content {
    /// The single text content.
    SingleText(String),
    /// The multiple content blocks.
    MultipleBlocks(Vec<ContentBlock>),
}

/// The view of a `Content`.
pub enum ContentView {
    SingleText(Seq<char>),
    MultipleBlocks(Seq<ContentBlockView>),
}

impl View for Content {
    type V = ContentView;

    open spec fn view(&self) -> ContentView {
        match self {
            Content::SingleText(text) => ContentView::SingleText(text@),
            Content::MultipleBlocks(blocks) => ContentView::MultipleBlocks(spec_blocks_view(blocks@)),
        }
    }
}

impl PartialEq for Content {
    #[verifier::loop_isolation(false)]
    fn eq(&self, other: &Self) -> (r: bool) {
        match (self, other) {
            (Content::SingleText(a), Content::SingleText(b)) => *a == *b,
            (Content::MultipleBlocks(a), Content::MultipleBlocks(b)) => {
                if a.len() != b.len() {
                    assert(spec_blocks_view(a@).len() != spec_blocks_view(b@).len());
                    return false;
                }
                let n = a.len();
                let mut i: usize = 0;
                while i < n
                    invariant
                        i <= n,
                        n == a@.len(),
                        n == b@.len(),
                        forall|k: int| 0 <= k < i ==> a@[k]@ == b@[k]@,
                    decreases n - i,
                {
                    let x = &a[i];
                    let y = &b[i];
                    if !x.eq(y) {
                        assert(spec_blocks_view(a@)[i as int] != spec_blocks_view(b@)[i as int]);
                        return false;
                    }
                    i = i + 1;
                }
                assert(spec_blocks_view(a@) =~= spec_blocks_view(b@));
                true
            },
            _ => false,
        }
    }
}

impl vstd::std_specs::cmp::PartialEqSpecImpl for Content {
    open spec fn obeys_eq_spec() -> bool {
        true
    }

    open spec fn eq_spec(&self, other: &Self) -> bool {
        self@ == other@
    }
}

impl Default for Content {
    /// The default content is an empty single text.
    fn default() -> (r: Self)
        ensures
            r@ == ContentView::SingleText(Seq::<char>::empty()),
    {
        let text = String::new();
        assert(text@ =~= Seq::<char>::empty());
        Content::SingleText(text)
    }
}

impl From<&str> for Content {
    fn from(text: &str) -> (r: Self)
        ensures
            r@ == ContentView::SingleText(text@),
    {
        Content::SingleText(text.to_owned())
    }
}

impl vstd::std_specs::convert::FromSpecImpl<&str> for Content {
    open spec fn obeys_from_spec() -> bool {
        false
    }

    open spec fn from_spec(text: &str) -> Self {
        arbitrary()
    }
}

impl From<ImageContentSource> for Content {
    fn from(image: ImageContentSource) -> (r: Self)
        ensures
            r@ == ContentView::MultipleBlocks(
                seq![
                    ContentBlockView::Image(
                        ImageContentBlockView { _type: ContentType::Image, source: image@ },
                    ),
                ],
            ),
    {
        let ghost source_view = image@;
        let mut blocks: Vec<ContentBlock> = Vec::new();
        blocks.push(ContentBlock::Image(ImageContentBlock::new(image)));
        let r = Content::MultipleBlocks(blocks);
        assert(spec_blocks_view(blocks@) =~= seq![
            ContentBlockView::Image(
                ImageContentBlockView { _type: ContentType::Image, source: source_view },
            ),
        ]);
        r
    }
}

impl vstd::std_specs::convert::FromSpecImpl<ImageContentSource> for Content {
    open spec fn obeys_from_spec() -> bool {
        false
    }

    open spec fn from_spec(image: ImageContentSource) -> Self {
        arbitrary()
    }
}

impl From<Vec<ContentBlock>> for Content {
    fn from(blocks: Vec<ContentBlock>) -> (r: Self)
        ensures
            r@ == ContentView::MultipleBlocks(spec_blocks_view(blocks@)),
    {
        Content::MultipleBlocks(blocks)
    }
}

impl vstd::std_specs::convert::FromSpecImpl<Vec<ContentBlock>> for Content {
    open spec fn obeys_from_spec() -> bool {
        true
    }

    open spec fn from_spec(blocks: Vec<ContentBlock>) -> Self {
        Content::MultipleBlocks(blocks)
    }
}

/// What flattening content into a single text returns: the text itself for a
/// single text; the text of the first block when that block is a text block;
/// `Empty` for an empty block sequence; `NotFoundTargetBlock` otherwise.
pub open spec fn spec_flatten_into_text(c: ContentView) -> Result<Seq<char>, ContentFlatteningError> {
    match c {
        ContentView::SingleText(text) => Ok(text),
        ContentView::MultipleBlocks(blocks) => if blocks.len() == 0 {
            Err(ContentFlatteningError::Empty)
        } else {
            match blocks[0] {
                ContentBlockView::Text(block) => Ok(block.text),
                _ => Err(ContentFlatteningError::NotFoundTargetBlock),
            }
        },
    }
}

/// What flattening content into a single image source returns: the source of
/// the first block when that block is an image block; `Empty` for an empty
/// block sequence; `NotFoundTargetBlock` otherwise, single texts included.
pub open spec fn spec_flatten_into_image_source(c: ContentView) -> Result<
    ImageContentSourceView,
    ContentFlatteningError,
> {
    match c {
        ContentView::SingleText(_) => Err(ContentFlatteningError::NotFoundTargetBlock),
        ContentView::MultipleBlocks(blocks) => if blocks.len() == 0 {
            Err(ContentFlatteningError::Empty)
        } else {
            match blocks[0] {
                ContentBlockView::Image(block) => Ok(block.source),
                _ => Err(ContentFlatteningError::NotFoundTargetBlock),
            }
        },
    }
}

impl Content {
    /// Flattens the content into a single text.
    pub fn flatten_into_text(&self) -> (r: Result<&str, ContentFlatteningError>)
        ensures
            match r {
                Ok(text) => spec_flatten_into_text(self@) == Ok::<
                    Seq<char>,
                    ContentFlatteningError,
                >(text@),
                Err(e) => spec_flatten_into_text(self@) == Err::<
                    Seq<char>,
                    ContentFlatteningError,
                >(e),
            },
    {
        match self {
            Content::SingleText(text) => Ok(text.as_str()),
            Content::MultipleBlocks(blocks) => {
                if blocks.len() == 0 {
                    Err(ContentFlatteningError::Empty)
                } else {
                    match &blocks[0] {
                        ContentBlock::Text(block) => Ok(block.text.as_str()),
                        _ => Err(ContentFlatteningError::NotFoundTargetBlock),
                    }
                }
            },
        }
    }

    /// Flattens the content into a single image source.
    pub fn flatten_into_image_source(&self) -> (r: Result<
        &ImageContentSource,
        ContentFlatteningError,
    >)
        ensures
            match r {
                Ok(source) => spec_flatten_into_image_source(self@) == Ok::<
                    ImageContentSourceView,
                    ContentFlatteningError,
                >(source@),
                Err(e) => spec_flatten_into_image_source(self@) == Err::<
                    ImageContentSourceView,
                    ContentFlatteningError,
                >(e),
            },
    {
        match self {
            Content::SingleText(_) => Err(ContentFlatteningError::NotFoundTargetBlock),
            Content::MultipleBlocks(blocks) => {
                if blocks.len() == 0 {
                    Err(ContentFlatteningError::Empty)
                } else {
                    match &blocks[0] {
                        ContentBlock::Image(block) => Ok(&block.source),
                        _ => Err(ContentFlatteningError::NotFoundTargetBlock),
                    }
                }
            },
        }
    }
}

/// What the composed extraction returns: the content flattened into text,
/// the first delimited span of that text, and the decoded invocation of
/// that span, failing fast at the first failing stage.
pub open spec fn spec_exclude_function_calls(c: ContentView) -> Result<
    InvokeView,
    FunctionCallsExcludingError,
> {
    match spec_flatten_into_text(c) {
        Err(e) => Err(FunctionCallsExcludingError::ContentFlattening(e)),
        Ok(text) => match spec_extract_first_function_calls(text) {
            None => Err(FunctionCallsExcludingError::XmlNotFound),
            Some(span) => match spec_deserialize_function_calls(span) {
                Err(e) => Err(FunctionCallsExcludingError::FunctionCallsDecoding(e)),
                Ok(invoke) => Ok(invoke),
            },
        },
    }
}

impl Content {
    /// Flattens the content into text, extracts the first delimited
    /// invocation span, and decodes it.
    pub fn exclude_function_calls(&self) -> (r: Result<FunctionCalls, FunctionCallsExcludingError>)
        ensures
            match r {
                Ok(fc) => spec_exclude_function_calls(self@) == Ok::<
                    InvokeView,
                    FunctionCallsExcludingError,
                >(fc@.invoke),
                Err(e) => spec_exclude_function_calls(self@) == Err::<
                    InvokeView,
                    FunctionCallsExcludingError,
                >(e),
            },
    {
        let text = match self.flatten_into_text() {
            Ok(text) => text,
            Err(e) => {
                return Err(FunctionCallsExcludingError::ContentFlattening(e));
            },
        };
        let span = match extract_first_function_calls(text) {
            Some(span) => span,
            None => {
                return Err(FunctionCallsExcludingError::XmlNotFound);
            },
        };
        match FunctionCalls::deserialize(span.as_str()) {
            Ok(fc) => Ok(fc),
            Err(e) => Err(FunctionCallsExcludingError::FunctionCallsDecoding(e)),
        }
    }
}

/// The start delimiter of an invocation span.
pub open spec fn spec_start_tag() -> Seq<char> {
    "<function_calls>"@
}

/// The end delimiter of an invocation span.
pub open spec fn spec_end_tag() -> Seq<char> {
    "</function_calls>"@
}

/// The first delimited invocation span of `text`: from the first occurrence
/// of the start delimiter through the first occurrence of the end delimiter
/// after it, both inclusive; `None` when either delimiter is missing.
pub open spec fn spec_extract_first_function_calls(text: Seq<char>) -> Option<Seq<char>> {
    match find_first(text, spec_start_tag(), 0) {
        Some(s) => match find_first(text, spec_end_tag(), s + spec_start_tag().len()) {
            Some(e) => Some(text.subrange(s, e + spec_end_tag().len())),
            None => None,
        },
        None => None,
    }
}

/// Extracts the first delimited invocation span of `text`, delimiters
/// included, or returns `None` when no such span exists.
pub fn extract_first_function_calls(text: &str) -> (r: Option<String>)
    ensures
        match r {
            Some(span) => spec_extract_first_function_calls(text@) == Some(span@),
            None => spec_extract_first_function_calls(text@) is None,
        },
{
    let chars = str_to_chars(text);
    let start_tag = str_to_chars("<function_calls>");
    let end_tag = str_to_chars("</function_calls>");
    let s = match find_pattern(&chars, &start_tag, 0) {
        Some(i) => i,
        None => {
            return None;
        },
    };
    let n = chars.len();
    proof {
        crate::text::lemma_find_first_characterization(chars@, start_tag@, 0);
        assert(contains_at(chars@, start_tag@, s as int));
        assert(s + start_tag@.len() <= n);
    }
    let e = match find_pattern(&chars, &end_tag, s + start_tag.len()) {
        Some(i) => i,
        None => {
            return None;
        },
    };
    proof {
        crate::text::lemma_find_first_characterization(chars@, end_tag@, s + start_tag@.len() as int);
        assert(contains_at(chars@, end_tag@, e as int));
        assert(e + end_tag@.len() <= n);
    }
    let span = subrange_vec(&chars, s, e + end_tag.len());
    Some(chars_to_string(&span))
}

/// Law: when a start delimiter occurs with none before it, and an end
/// delimiter occurs after it with none in between, the extracted span runs
/// from that start delimiter through that end delimiter, both inclusive.
pub proof fn lemma_extract_returns_first_delimited_span(text: Seq<char>, s: int, e: int)
    requires
        contains_at(text, spec_start_tag(), s),
        forall|j: int| 0 <= j < s ==> !contains_at(text, spec_start_tag(), j),
        contains_at(text, spec_end_tag(), e),
        s + spec_start_tag().len() <= e,
        forall|j: int|
            s + spec_start_tag().len() <= j < e ==> !contains_at(text, spec_end_tag(), j),
    ensures
        spec_extract_first_function_calls(text) == Some(
            text.subrange(s, e + spec_end_tag().len() as int),
        ),
{
    crate::text::lemma_find_first_unique(text, spec_start_tag(), 0, s);
    crate::text::lemma_find_first_unique(text, spec_end_tag(), s + spec_start_tag().len() as int, e);
}

/// Law: the extraction yields nothing when the start delimiter never occurs,
/// whether or not an end delimiter is present.
pub proof fn lemma_extract_without_start_delimiter(text: Seq<char>)
    requires
        forall|j: int| !contains_at(text, spec_start_tag(), j),
    ensures
        spec_extract_first_function_calls(text) is None,
{
    crate::text::lemma_find_first_characterization(text, spec_start_tag(), 0);
    if let Some(i) = find_first(text, spec_start_tag(), 0) {
        assert(contains_at(text, spec_start_tag(), i));
    }
}

/// Law: a further start delimiter between the first start delimiter and the
/// first end delimiter after it does not move either end of the span.
pub proof fn lemma_extract_ignores_second_start_delimiter(text: Seq<char>, s: int, s2: int, e: int)
    requires
        contains_at(text, spec_start_tag(), s),
        forall|j: int| 0 <= j < s ==> !contains_at(text, spec_start_tag(), j),
        contains_at(text, spec_start_tag(), s2),
        s < s2 < e,
        contains_at(text, spec_end_tag(), e),
        s + spec_start_tag().len() <= e,
        forall|j: int|
            s + spec_start_tag().len() <= j < e ==> !contains_at(text, spec_end_tag(), j),
    ensures
        spec_extract_first_function_calls(text) == Some(
            text.subrange(s, e + spec_end_tag().len() as int),
        ),
{
    lemma_extract_returns_first_delimited_span(text, s, e);
}

/// Law: content built from a single text flattens back into exactly that
/// text.
pub proof fn lemma_single_text_flattens_into_text(text: Seq<char>)
    ensures
        spec_flatten_into_text(ContentView::SingleText(text)) == Ok::<
            Seq<char>,
            ContentFlatteningError,
        >(text),
{
}

/// Law: content built from a single image source flattens back into exactly
/// that source.
pub proof fn lemma_single_image_flattens_into_image_source(source: ImageContentSourceView)
    ensures
        spec_flatten_into_image_source(
            ContentView::MultipleBlocks(
                seq![
                    ContentBlockView::Image(
                        ImageContentBlockView { _type: ContentType::Image, source: source },
                    ),
                ],
            ),
        ) == Ok::<ImageContentSourceView, ContentFlatteningError>(source),
{
}

/// Law: flattening an empty block sequence fails with `Empty`, whichever
/// modality is requested.
pub proof fn lemma_flatten_empty_blocks_fails_with_empty()
    ensures
        spec_flatten_into_text(ContentView::MultipleBlocks(Seq::empty())) == Err::<
            Seq<char>,
            ContentFlatteningError,
        >(ContentFlatteningError::Empty),
        spec_flatten_into_image_source(ContentView::MultipleBlocks(Seq::empty())) == Err::<
            ImageContentSourceView,
            ContentFlatteningError,
        >(ContentFlatteningError::Empty),
{
}

} // verus!
