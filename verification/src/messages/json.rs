//! The JSON wire format of the content model.
//!
//! A `SingleText` collapses to a bare JSON string; `MultipleBlocks` to a
//! JSON array of objects, each carrying its discriminant tag first. The
//! codec is canonical: the encoder emits exactly one spelling of every
//! value (compact, tags first, keys in declared order), and the decoder
//! accepts the two wire shapes in that spelling.
//!
//! Strings escape the quote, the backslash, and the five named control
//! characters; any other character is emitted as it is.

use vstd::prelude::*;

use crate::messages::content::{
    spec_content_type_str, spec_image_media_type_str, spec_image_source_type_str, Content,
    ContentBlock, ContentBlockView, ContentType, ContentView, ImageContentBlock,
    ImageContentBlockView, ImageContentSource, ImageContentSourceView, ImageMediaType,
    ImageSourceType, TextContentBlock, TextContentBlockView,
};
use crate::text::{chars_to_string, contains_at, lemma_contains_at_concat, push_str_chars, str_to_chars};

verus! {

/// The characters a single character contributes to an encoded JSON string:
/// a two-character escape for the quote, the backslash, backspace, tab,
/// line feed, form feed and carriage return; the character itself
/// otherwise.
pub open spec fn spec_escape_char(c: char) -> Seq<char> {
    if c == '"' {
        seq!['\\', '"']
    } else if c == '\\' {
        seq!['\\', '\\']
    } else if c == '\u{8}' {
        seq!['\\', 'b']
    } else if c == '\t' {
        seq!['\\', 't']
    } else if c == '\n' {
        seq!['\\', 'n']
    } else if c == '\u{c}' {
        seq!['\\', 'f']
    } else if c == '\r' {
        seq!['\\', 'r']
    } else {
        seq![c]
    }
}

/// The escaped body of an encoded JSON string.
pub open spec fn spec_json_escape(s: Seq<char>) -> Seq<char>
    decreases s.len(),
{
    if s.len() == 0 {
        Seq::empty()
    } else {
        spec_json_escape(s.drop_last()) + spec_escape_char(s[s.len() - 1])
    }
}

/// The encoding of a JSON string: the escaped body between quotes.
pub open spec fn spec_json_string(s: Seq<char>) -> Seq<char> {
    "\""@ + spec_json_escape(s) + "\""@
}

fn escape_char_into(out: &mut Vec<char>, c: char)
    ensures
        final(out)@ == old(out)@ + spec_escape_char(c),
{
    if c == '"' {
        out.push('\\');
        out.push('"');
        assert(out@ =~= old(out)@ + spec_escape_char(c));
    } else if c == '\\' {
        out.push('\\');
        out.push('\\');
        assert(out@ =~= old(out)@ + spec_escape_char(c));
    } else if c == '\u{8}' {
        out.push('\\');
        out.push('b');
        assert(out@ =~= old(out)@ + spec_escape_char(c));
    } else if c == '\t' {
        out.push('\\');
        out.push('t');
        assert(out@ =~= old(out)@ + spec_escape_char(c));
    } else if c == '\n' {
        out.push('\\');
        out.push('n');
        assert(out@ =~= old(out)@ + spec_escape_char(c));
    } else if c == '\u{c}' {
        out.push('\\');
        out.push('f');
        assert(out@ =~= old(out)@ + spec_escape_char(c));
    } else if c == '\r' {
        out.push('\\');
        out.push('r');
        assert(out@ =~= old(out)@ + spec_escape_char(c));
    } else {
        out.push(c);
        assert(out@ =~= old(out)@ + spec_escape_char(c));
    }
}

/// Appends the JSON string encoding of `s` to `out`.
#[verifier::loop_isolation(false)]
fn json_string_into(out: &mut Vec<char>, s: &str)
    ensures
        final(out)@ == old(out)@ + spec_json_string(s@),
{
    push_str_chars(out, "\"");
    let cs = str_to_chars(s);
    let n = cs.len();
    let mut i: usize = 0;
    while i < n
        invariant
            i <= n,
            n == cs@.len(),
            cs@ == s@,
            out@ == old(out)@ + "\""@ + spec_json_escape(s@.subrange(0, i as int)),
        decreases n - i,
    {
        escape_char_into(out, cs[i]);
        i = i + 1;
        proof {
            let prefix = s@.subrange(0, i as int);
            assert(prefix.drop_last() =~= s@.subrange(0, i - 1));
            assert(out@ =~= old(out)@ + "\""@ + spec_json_escape(prefix));
        }
    }
    assert(s@.subrange(0, n as int) =~= s@);
    push_str_chars(out, "\"");
    assert(out@ =~= old(out)@ + spec_json_string(s@));
}

/// The encoding of an image source: an object carrying its encoding kind
/// tag first, then the media type and the data.
pub open spec fn spec_json_of_image_source(v: ImageContentSourceView) -> Seq<char> {
    "{\"type\":"@ + spec_json_string(spec_image_source_type_str(v._type)) + ",\"media_type\":"@
        + spec_json_string(spec_image_media_type_str(v.media_type)) + ",\"data\":"@
        + spec_json_string(v.data) + "}"@
}

fn json_image_source_into(out: &mut Vec<char>, v: &ImageContentSource)
    ensures
        final(out)@ == old(out)@ + spec_json_of_image_source(v@),
{
    push_str_chars(out, "{\"type\":");
    let kind = v._type.to_string();
    json_string_into(out, kind.as_str());
    push_str_chars(out, ",\"media_type\":");
    let media = v.media_type.to_string();
    json_string_into(out, media.as_str());
    push_str_chars(out, ",\"data\":");
    json_string_into(out, v.data.as_str());
    push_str_chars(out, "}");
    assert(out@ =~= old(out)@ + spec_json_of_image_source(v@));
}

/// The encoding of a text block: an object carrying its tag first, then
/// the text.
pub open spec fn spec_json_of_text_block(v: TextContentBlockView) -> Seq<char> {
    "{\"type\":"@ + spec_json_string(spec_content_type_str(v._type)) + ",\"text\":"@
        + spec_json_string(v.text) + "}"@
}

fn json_text_block_into(out: &mut Vec<char>, v: &TextContentBlock)
    ensures
        final(out)@ == old(out)@ + spec_json_of_text_block(v@),
{
    push_str_chars(out, "{\"type\":");
    let tag = v._type.to_string();
    json_string_into(out, tag.as_str());
    push_str_chars(out, ",\"text\":");
    json_string_into(out, v.text.as_str());
    push_str_chars(out, "}");
    assert(out@ =~= old(out)@ + spec_json_of_text_block(v@));
}

/// The encoding of an image block: an object carrying its tag first, then
/// the source object.
pub open spec fn spec_json_of_image_block(v: ImageContentBlockView) -> Seq<char> {
    "{\"type\":"@ + spec_json_string(spec_content_type_str(v._type)) + ",\"source\":"@
        + spec_json_of_image_source(v.source) + "}"@
}

fn json_image_block_into(out: &mut Vec<char>, v: &ImageContentBlock)
    ensures
        final(out)@ == old(out)@ + spec_json_of_image_block(v@),
{
    push_str_chars(out, "{\"type\":");
    let tag = v._type.to_string();
    json_string_into(out, tag.as_str());
    push_str_chars(out, ",\"source\":");
    json_image_source_into(out, &v.source);
    push_str_chars(out, "}");
    assert(out@ =~= old(out)@ + spec_json_of_image_block(v@));
}

/// The encoding of a content block: the encoding of its variant.
pub open spec fn spec_json_of_block(v: ContentBlockView) -> Seq<char> {
    match v {
        ContentBlockView::Text(b) => spec_json_of_text_block(b),
        ContentBlockView::Image(b) => spec_json_of_image_block(b),
    }
}

fn json_block_into(out: &mut Vec<char>, v: &ContentBlock)
    ensures
        final(out)@ == old(out)@ + spec_json_of_block(v@),
{
    match v {
        ContentBlock::Text(b) => json_text_block_into(out, b),
        ContentBlock::Image(b) => json_image_block_into(out, b),
    }
}

/// The comma-joined encodings of a sequence of blocks.
pub open spec fn spec_json_of_blocks(blocks: Seq<ContentBlockView>) -> Seq<char>
    decreases blocks.len(),
{
    if blocks.len() == 0 {
        Seq::empty()
    } else if blocks.len() == 1 {
        spec_json_of_block(blocks[0])
    } else {
        spec_json_of_blocks(blocks.drop_last()) + ","@ + spec_json_of_block(
            blocks[blocks.len() - 1],
        )
    }
}

/// The encoding of content: a bare JSON string for a single text, an array
/// of tagged objects for multiple blocks.
pub open spec fn spec_json_of_content(v: ContentView) -> Seq<char> {
    match v {
        ContentView::SingleText(text) => spec_json_string(text),
        ContentView::MultipleBlocks(blocks) => "["@ + spec_json_of_blocks(blocks) + "]"@,
    }
}

#[verifier::loop_isolation(false)]
fn json_blocks_into(out: &mut Vec<char>, blocks: &Vec<ContentBlock>)
    ensures
        final(out)@ == old(out)@ + spec_json_of_blocks(
            crate::messages::content::spec_blocks_view(blocks@),
        ),
{
    let ghost bv = crate::messages::content::spec_blocks_view(blocks@);
    let n = blocks.len();
    let mut k: usize = 0;
    while k < n
        invariant
            k <= n,
            n == blocks@.len(),
            bv == crate::messages::content::spec_blocks_view(blocks@),
            bv.len() == n,
            out@ == old(out)@ + spec_json_of_blocks(bv.subrange(0, k as int)),
        decreases n - k,
    {
        if k > 0 {
            push_str_chars(out, ",");
        }
        json_block_into(out, &blocks[k]);
        k = k + 1;
        proof {
            let prefix = bv.subrange(0, k as int);
            assert(prefix.drop_last() =~= bv.subrange(0, k - 1));
            assert(prefix[k - 1] == bv[k - 1]);
            if k == 1 {
                assert(spec_json_of_blocks(bv.subrange(0, 0)) =~= Seq::<char>::empty());
                assert(out@ =~= old(out)@ + spec_json_of_blocks(prefix));
            } else {
                assert(out@ =~= old(out)@ + spec_json_of_blocks(prefix));
            }
        }
    }
    assert(bv.subrange(0, n as int) =~= bv);
}

/// The decoded body of a JSON string starting at `i` (just after the
/// opening quote): the characters up to the closing quote, with the
/// escapes `\"`, `\\`, `\/`, `\b`, `\t`, `\n`, `\f` and `\r` decoded,
/// paired with the index just after the closing quote; `None` for an
/// unterminated body or an unknown escape.
pub open spec fn spec_parse_string_body(s: Seq<char>, i: int) -> Option<(Seq<char>, int)>
    decreases s.len() - i,
{
    if !(0 <= i < s.len()) {
        None
    } else if s[i] == '"' {
        Some((Seq::empty(), i + 1))
    } else if s[i] == '\\' {
        if i + 1 < s.len() {
            let e = s[i + 1];
            let unescaped: Option<char> = if e == '"' {
                Some('"')
            } else if e == '\\' {
                Some('\\')
            } else if e == '/' {
                Some('/')
            } else if e == 'b' {
                Some('\u{8}')
            } else if e == 't' {
                Some('\t')
            } else if e == 'n' {
                Some('\n')
            } else if e == 'f' {
                Some('\u{c}')
            } else if e == 'r' {
                Some('\r')
            } else {
                None
            };
            match unescaped {
                None => None,
                Some(c) => match spec_parse_string_body(s, i + 2) {
                    None => None,
                    Some((t, j)) => Some((seq![c] + t, j)),
                },
            }
        } else {
            None
        }
    } else {
        match spec_parse_string_body(s, i + 1) {
            None => None,
            Some((t, j)) => Some((seq![s[i]] + t, j)),
        }
    }
}

/// A JSON string starting at `i`: an opening quote, the body, the closing
/// quote.
pub open spec fn spec_parse_json_string(s: Seq<char>, i: int) -> Option<(Seq<char>, int)> {
    if 0 <= i < s.len() && s[i] == '"' {
        spec_parse_string_body(s, i + 1)
    } else {
        None
    }
}

/// Decodes the JSON string starting at `i`.
#[verifier::loop_isolation(false)]
fn parse_json_string(s: &Vec<char>, i: usize) -> (r: Option<(Vec<char>, usize)>)
    ensures
        match r {
            Some(p) => {
                &&& spec_parse_json_string(s@, i as int) == Some((p.0@, p.1 as int))
                &&& i < p.1 <= s@.len()
            },
            None => spec_parse_json_string(s@, i as int) is None,
        },
{
    let n = s.len();
    if i >= n {
        return None;
    }
    if s[i] != '"' {
        return None;
    }
    let mut acc: Vec<char> = Vec::new();
    let mut k = i + 1;
    loop
        invariant
            i + 1 <= k <= n,
            n == s@.len(),
            spec_parse_string_body(s@, (i + 1) as int) == (match spec_parse_string_body(
                s@,
                k as int,
            ) {
                None => None::<(Seq<char>, int)>,
                Some((t, j)) => Some((acc@ + t, j)),
            }),
        decreases n - k,
    {
        if k >= n {
            return None;
        }
        let c = s[k];
        if c == '"' {
            assert(acc@ + Seq::<char>::empty() =~= acc@);
            return Some((acc, k + 1));
        }
        if c == '\\' {
            if k + 1 >= n {
                return None;
            }
            let e = s[k + 1];
            let u: char;
            if e == '"' {
                u = '"';
            } else if e == '\\' {
                u = '\\';
            } else if e == '/' {
                u = '/';
            } else if e == 'b' {
                u = '\u{8}';
            } else if e == 't' {
                u = '\t';
            } else if e == 'n' {
                u = '\n';
            } else if e == 'f' {
                u = '\u{c}';
            } else if e == 'r' {
                u = '\r';
            } else {
                return None;
            }
            let ghost prefix = acc@;
            acc.push(u);
            proof {
                match spec_parse_string_body(s@, k + 2) {
                    Some((t, j)) => {
                        assert(prefix + (seq![u] + t) =~= acc@ + t);
                    },
                    None => {},
                }
            }
            k = k + 2;
        } else {
            let ghost prefix = acc@;
            acc.push(c);
            proof {
                match spec_parse_string_body(s@, k + 1) {
                    Some((t, j)) => {
                        assert(prefix + (seq![c] + t) =~= acc@ + t);
                    },
                    None => {},
                }
            }
            k = k + 1;
        }
    }
}

/// True when the characters of `lit` occur in `s` starting at `i`.
fn begins_with_at(s: &Vec<char>, lit: &str, i: usize) -> (r: bool)
    ensures
        r == crate::text::contains_at(s@, lit@, i as int),
{
    let p = str_to_chars(lit);
    if i > s.len() || p.len() > s.len() - i {
        return false;
    }
    crate::text::matches_at(s, &p, i)
}

/// The media type a wire name maps back to.
pub open spec fn spec_media_type_of_str(m: Seq<char>) -> Option<ImageMediaType> {
    if m == spec_image_media_type_str(ImageMediaType::Jpeg) {
        Some(ImageMediaType::Jpeg)
    } else if m == spec_image_media_type_str(ImageMediaType::Png) {
        Some(ImageMediaType::Png)
    } else if m == spec_image_media_type_str(ImageMediaType::Gif) {
        Some(ImageMediaType::Gif)
    } else if m == spec_image_media_type_str(ImageMediaType::Webp) {
        Some(ImageMediaType::Webp)
    } else {
        None
    }
}

fn media_type_of_chars(m: &Vec<char>) -> (r: Option<ImageMediaType>)
    ensures
        r == spec_media_type_of_str(m@),
{
    if crate::text::chars_eq_str(m, "image/jpeg") {
        Some(ImageMediaType::Jpeg)
    } else if crate::text::chars_eq_str(m, "image/png") {
        Some(ImageMediaType::Png)
    } else if crate::text::chars_eq_str(m, "image/gif") {
        Some(ImageMediaType::Gif)
    } else if crate::text::chars_eq_str(m, "image/webp") {
        Some(ImageMediaType::Webp)
    } else {
        None
    }
}

/// The data field and closing brace of a source object, at `j1`, with the
/// already-decoded media type.
pub open spec fn spec_parse_source_data(s: Seq<char>, j1: int, media: ImageMediaType) -> Option<
    (ImageContentSourceView, int),
> {
    if !crate::text::contains_at(s, ",\"data\":"@, j1) {
        None
    } else {
        match spec_parse_json_string(s, j1 + ",\"data\":"@.len()) {
            None => None,
            Some((data, j2)) => if j2 < s.len() && s[j2] == '}' {
                let v = ImageContentSourceView {
                    _type: ImageSourceType::Base64,
                    media_type: media,
                    data,
                };
                Some((v, j2 + 1))
            } else {
                None
            },
        }
    }
}

/// The media type field of a source object, at `j0`, and what follows it.
pub open spec fn spec_parse_source_media(s: Seq<char>, j0: int) -> Option<
    (ImageContentSourceView, int),
> {
    if !crate::text::contains_at(s, ",\"media_type\":"@, j0) {
        None
    } else {
        match spec_parse_json_string(s, j0 + ",\"media_type\":"@.len()) {
            None => None,
            Some((m, j1)) => match spec_media_type_of_str(m) {
                None => None,
                Some(media) => spec_parse_source_data(s, j1, media),
            },
        }
    }
}

/// The image source object starting at `i`: its tag first, then the media
/// type and the data, paired with the index just after the closing brace.
pub open spec fn spec_parse_image_source_at(s: Seq<char>, i: int) -> Option<
    (ImageContentSourceView, int),
> {
    if !crate::text::contains_at(s, "{\"type\":"@, i) {
        None
    } else {
        match spec_parse_json_string(s, i + "{\"type\":"@.len()) {
            None => None,
            Some((kind, j0)) => if kind == spec_image_source_type_str(ImageSourceType::Base64) {
                spec_parse_source_media(s, j0)
            } else {
                None
            },
        }
    }
}

/// Decodes the image source object starting at `i`.
fn parse_image_source_at(s: &Vec<char>, i: usize) -> (r: Option<(ImageContentSource, usize)>)
    ensures
        match r {
            Some(p) => {
                &&& spec_parse_image_source_at(s@, i as int) == Some((p.0@, p.1 as int))
                &&& i < p.1 <= s@.len()
            },
            None => spec_parse_image_source_at(s@, i as int) is None,
        },
{
    let n = s.len();
    if !begins_with_at(s, "{\"type\":", i) {
        return None;
    }
    let open_lit = str_to_chars("{\"type\":");
    let (kind, j0) = match parse_json_string(s, i + open_lit.len()) {
        Some(p) => p,
        None => {
            return None;
        },
    };
    if !crate::text::chars_eq_str(&kind, "base64") {
        return None;
    }
    if !begins_with_at(s, ",\"media_type\":", j0) {
        return None;
    }
    let media_lit = str_to_chars(",\"media_type\":");
    let (m, j1) = match parse_json_string(s, j0 + media_lit.len()) {
        Some(p) => p,
        None => {
            return None;
        },
    };
    let media = match media_type_of_chars(&m) {
        Some(media) => media,
        None => {
            return None;
        },
    };
    if !begins_with_at(s, ",\"data\":", j1) {
        return None;
    }
    let data_lit = str_to_chars(",\"data\":");
    let (data, j2) = match parse_json_string(s, j1 + data_lit.len()) {
        Some(p) => p,
        None => {
            return None;
        },
    };
    if j2 < s.len() && s[j2] == '}' {
        let source = ImageContentSource {
            _type: ImageSourceType::Base64,
            media_type: media,
            data: chars_to_string(&data),
        };
        Some((source, j2 + 1))
    } else {
        None
    }
}

/// The text field and closing brace of a text block, at `j0`.
pub open spec fn spec_parse_text_tail(s: Seq<char>, j0: int) -> Option<(ContentBlockView, int)> {
    if !crate::text::contains_at(s, ",\"text\":"@, j0) {
        None
    } else {
        match spec_parse_json_string(s, j0 + ",\"text\":"@.len()) {
            None => None,
            Some((text, j1)) => if j1 < s.len() && s[j1] == '}' {
                let b = ContentBlockView::Text(
                    TextContentBlockView { _type: ContentType::Text, text },
                );
                Some((b, j1 + 1))
            } else {
                None
            },
        }
    }
}

/// The source field and closing brace of an image block, at `j0`.
pub open spec fn spec_parse_image_tail(s: Seq<char>, j0: int) -> Option<(ContentBlockView, int)> {
    if !crate::text::contains_at(s, ",\"source\":"@, j0) {
        None
    } else {
        match spec_parse_image_source_at(s, j0 + ",\"source\":"@.len()) {
            None => None,
            Some((source, j1)) => if j1 < s.len() && s[j1] == '}' {
                let b = ContentBlockView::Image(
                    ImageContentBlockView { _type: ContentType::Image, source },
                );
                Some((b, j1 + 1))
            } else {
                None
            },
        }
    }
}

/// The tagged block object starting at `i`: dispatched on its tag to a text
/// block or an image block, paired with the index just after the closing
/// brace.
pub open spec fn spec_parse_block_at(s: Seq<char>, i: int) -> Option<(ContentBlockView, int)> {
    if !crate::text::contains_at(s, "{\"type\":"@, i) {
        None
    } else {
        match spec_parse_json_string(s, i + "{\"type\":"@.len()) {
            None => None,
            Some((tag, j0)) => if tag == spec_content_type_str(ContentType::Text) {
                spec_parse_text_tail(s, j0)
            } else if tag == spec_content_type_str(ContentType::Image) {
                spec_parse_image_tail(s, j0)
            } else {
                None
            },
        }
    }
}

/// Decodes the tagged block object starting at `i`.
fn parse_block_at(s: &Vec<char>, i: usize) -> (r: Option<(ContentBlock, usize)>)
    ensures
        match r {
            Some(p) => {
                &&& spec_parse_block_at(s@, i as int) == Some((p.0@, p.1 as int))
                &&& i < p.1 <= s@.len()
            },
            None => spec_parse_block_at(s@, i as int) is None,
        },
{
    let n = s.len();
    if !begins_with_at(s, "{\"type\":", i) {
        return None;
    }
    let open_lit = str_to_chars("{\"type\":");
    let (tag, j0) = match parse_json_string(s, i + open_lit.len()) {
        Some(p) => p,
        None => {
            return None;
        },
    };
    if crate::text::chars_eq_str(&tag, "text") {
        if !begins_with_at(s, ",\"text\":", j0) {
            return None;
        }
        let text_lit = str_to_chars(",\"text\":");
        let (text, j1) = match parse_json_string(s, j0 + text_lit.len()) {
            Some(p) => p,
            None => {
                return None;
            },
        };
        if j1 < s.len() && s[j1] == '}' {
            let block = TextContentBlock { _type: ContentType::Text, text: chars_to_string(&text) };
            Some((ContentBlock::Text(block), j1 + 1))
        } else {
            None
        }
    } else if crate::text::chars_eq_str(&tag, "image") {
        if !begins_with_at(s, ",\"source\":", j0) {
            return None;
        }
        let source_lit = str_to_chars(",\"source\":");
        let (source, j1) = match parse_image_source_at(s, j0 + source_lit.len()) {
            Some(p) => p,
            None => {
                return None;
            },
        };
        if j1 < s.len() && s[j1] == '}' {
            let block = ImageContentBlock { _type: ContentType::Image, source };
            Some((ContentBlock::Image(block), j1 + 1))
        } else {
            None
        }
    } else {
        None
    }
}

/// The blocks of an array body starting at `i`: block objects separated by
/// commas and closed by a bracket, paired with the index just after it.
pub open spec fn spec_parse_blocks_rest(s: Seq<char>, i: int) -> Option<
    (Seq<ContentBlockView>, int),
>
    decreases s.len() - i,
{
    match spec_parse_block_at(s, i) {
        None => None,
        Some((b, j)) => {
            if !(i < j <= s.len()) {
                None
            } else if j < s.len() && s[j] == ',' {
                match spec_parse_blocks_rest(s, j + 1) {
                    None => None,
                    Some((bs, k)) => Some((seq![b] + bs, k)),
                }
            } else if j < s.len() && s[j] == ']' {
                Some((seq![b], j + 1))
            } else {
                None
            }
        },
    }
}

/// Decodes the blocks of an array body starting at `i`.
#[verifier::loop_isolation(false)]
fn parse_blocks_rest(s: &Vec<char>, start: usize) -> (r: Option<(Vec<ContentBlock>, usize)>)
    ensures
        match r {
            Some(p) => {
                &&& spec_parse_blocks_rest(s@, start as int) == Some(
                    (crate::messages::content::spec_blocks_view(p.0@), p.1 as int),
                )
                &&& p.1 <= s@.len()
            },
            None => spec_parse_blocks_rest(s@, start as int) is None,
        },
{
    let n = s.len();
    let mut out: Vec<ContentBlock> = Vec::new();
    let mut cur = start;
    loop
        invariant
            cur <= n || spec_parse_blocks_rest(s@, cur as int) is None,
            n == s@.len(),
            spec_parse_blocks_rest(s@, start as int) == (match spec_parse_blocks_rest(
                s@,
                cur as int,
            ) {
                None => None::<(Seq<ContentBlockView>, int)>,
                Some((bs, k)) => Some(
                    (crate::messages::content::spec_blocks_view(out@) + bs, k),
                ),
            }),
        decreases n - cur,
    {
        let (b, j) = match parse_block_at(s, cur) {
            Some(p) => p,
            None => {
                return None;
            },
        };
        let ghost prefix = crate::messages::content::spec_blocks_view(out@);
        if j < n && s[j] == ',' {
            out.push(b);
            proof {
                assert(crate::messages::content::spec_blocks_view(out@) =~= prefix + seq![b@]);
                match spec_parse_blocks_rest(s@, j + 1) {
                    Some((bs, k)) => {
                        assert(prefix + (seq![b@] + bs) =~= crate::messages::content::spec_blocks_view(out@) + bs);
                    },
                    None => {},
                }
            }
            cur = j + 1;
        } else if j < n && s[j] == ']' {
            out.push(b);
            proof {
                assert(crate::messages::content::spec_blocks_view(out@) =~= prefix + seq![b@]);
                assert(prefix + seq![b@] =~= crate::messages::content::spec_blocks_view(out@));
            }
            return Some((out, j + 1));
        } else {
            return None;
        }
    }
}

/// The content a complete wire text decodes to: a bare JSON string gives a
/// single text, an array of tagged objects gives multiple blocks; nothing
/// may follow the value.
pub open spec fn spec_parse_content(s: Seq<char>) -> Option<ContentView> {
    if s.len() == 0 {
        None
    } else if s[0] == '"' {
        match spec_parse_json_string(s, 0) {
            None => None,
            Some((t, j)) => if j == s.len() {
                Some(ContentView::SingleText(t))
            } else {
                None
            },
        }
    } else if s[0] == '[' {
        if s.len() == 2 && s[1] == ']' {
            Some(ContentView::MultipleBlocks(Seq::empty()))
        } else {
            match spec_parse_blocks_rest(s, 1) {
                None => None,
                Some((bs, j)) => if j == s.len() {
                    Some(ContentView::MultipleBlocks(bs))
                } else {
                    None
                },
            }
        }
    } else {
        None
    }
}

impl Content {
    /// Deserializes content from its JSON wire form: a bare string gives a
    /// `SingleText`, an array of tagged objects a `MultipleBlocks`.
    pub fn from_json(s: &str) -> (r: Option<Content>)
        ensures
            match r {
                Some(c) => spec_parse_content(s@) == Some(c@),
                None => spec_parse_content(s@) is None,
            },
    {
        let chars = str_to_chars(s);
        let n = chars.len();
        if n == 0 {
            return None;
        }
        if chars[0] == '"' {
            let (t, j) = match parse_json_string(&chars, 0) {
                Some(p) => p,
                None => {
                    return None;
                },
            };
            if j == n {
                Some(Content::SingleText(chars_to_string(&t)))
            } else {
                None
            }
        } else if chars[0] == '[' {
            if n == 2 && chars[1] == ']' {
                let blocks: Vec<ContentBlock> = Vec::new();
                let r = Content::MultipleBlocks(blocks);
                assert(r@ =~= ContentView::MultipleBlocks(Seq::empty())) by {
                    assert(crate::messages::content::spec_blocks_view(blocks@) =~= Seq::<
                        ContentBlockView,
                    >::empty());
                }
                Some(r)
            } else {
                let (blocks, j) = match parse_blocks_rest(&chars, 1) {
                    Some(p) => p,
                    None => {
                        return None;
                    },
                };
                if j == n {
                    Some(Content::MultipleBlocks(blocks))
                } else {
                    None
                }
            }
        } else {
            None
        }
    }
}

/// The block a complete wire text decodes to; nothing may follow the
/// object.
pub open spec fn spec_parse_block(s: Seq<char>) -> Option<ContentBlockView> {
    match spec_parse_block_at(s, 0) {
        Some((b, j)) => if j == s.len() {
            Some(b)
        } else {
            None
        },
        None => None,
    }
}

impl ContentBlock {
    /// Deserializes a block from its JSON wire form.
    pub fn from_json(s: &str) -> (r: Option<ContentBlock>)
        ensures
            match r {
                Some(b) => spec_parse_block(s@) == Some(b@),
                None => spec_parse_block(s@) is None,
            },
    {
        let chars = str_to_chars(s);
        match parse_block_at(&chars, 0) {
            Some((b, j)) => {
                if j == chars.len() {
                    Some(b)
                } else {
                    None
                }
            },
            None => None,
        }
    }
}

impl TextContentBlock {
    /// Deserializes a text block from its JSON wire form.
    pub fn from_json(s: &str) -> (r: Option<TextContentBlock>)
        ensures
            match r {
                Some(b) => spec_parse_block(s@) == Some(ContentBlockView::Text(b@)),
                None => !(spec_parse_block(s@) matches Some(ContentBlockView::Text(_))),
            },
    {
        match ContentBlock::from_json(s) {
            Some(ContentBlock::Text(b)) => Some(b),
            _ => None,
        }
    }
}

impl ImageContentBlock {
    /// Deserializes an image block from its JSON wire form.
    pub fn from_json(s: &str) -> (r: Option<ImageContentBlock>)
        ensures
            match r {
                Some(b) => spec_parse_block(s@) == Some(ContentBlockView::Image(b@)),
                None => !(spec_parse_block(s@) matches Some(ContentBlockView::Image(_))),
            },
    {
        match ContentBlock::from_json(s) {
            Some(ContentBlock::Image(b)) => Some(b),
            _ => None,
        }
    }
}

/// The image source a complete wire text decodes to; nothing may follow
/// the object.
pub open spec fn spec_parse_image_source(s: Seq<char>) -> Option<ImageContentSourceView> {
    match spec_parse_image_source_at(s, 0) {
        Some((v, j)) => if j == s.len() {
            Some(v)
        } else {
            None
        },
        None => None,
    }
}

impl ImageContentSource {
    /// Deserializes an image source from its JSON wire form.
    pub fn from_json(s: &str) -> (r: Option<ImageContentSource>)
        ensures
            match r {
                Some(v) => spec_parse_image_source(s@) == Some(v@),
                None => spec_parse_image_source(s@) is None,
            },
    {
        let chars = str_to_chars(s);
        match parse_image_source_at(&chars, 0) {
            Some((v, j)) => {
                if j == chars.len() {
                    Some(v)
                } else {
                    None
                }
            },
            None => None,
        }
    }
}

/// The content type tag a wire text decodes to: exactly the JSON string of
/// one tag name.
pub open spec fn spec_parse_content_type(s: Seq<char>) -> Option<ContentType> {
    if s == spec_json_string(spec_content_type_str(ContentType::Text)) {
        Some(ContentType::Text)
    } else if s == spec_json_string(spec_content_type_str(ContentType::Image)) {
        Some(ContentType::Image)
    } else if s == spec_json_string(spec_content_type_str(ContentType::TextDelta)) {
        Some(ContentType::TextDelta)
    } else {
        None
    }
}

impl ContentType {
    /// Deserializes a tag from its JSON wire form.
    pub fn from_json(s: &str) -> (r: Option<ContentType>)
        ensures
            r == spec_parse_content_type(s@),
    {
        let text = ContentType::Text.to_json();
        if crate::text::str_eq(s, text.as_str()) {
            return Some(ContentType::Text);
        }
        let image = ContentType::Image.to_json();
        if crate::text::str_eq(s, image.as_str()) {
            return Some(ContentType::Image);
        }
        let delta = ContentType::TextDelta.to_json();
        if crate::text::str_eq(s, delta.as_str()) {
            return Some(ContentType::TextDelta);
        }
        None
    }
}

/// The encoding kind a wire text decodes to.
pub open spec fn spec_parse_image_source_type(s: Seq<char>) -> Option<ImageSourceType> {
    if s == spec_json_string(spec_image_source_type_str(ImageSourceType::Base64)) {
        Some(ImageSourceType::Base64)
    } else {
        None
    }
}

impl ImageSourceType {
    /// Deserializes an encoding kind from its JSON wire form.
    pub fn from_json(s: &str) -> (r: Option<ImageSourceType>)
        ensures
            r == spec_parse_image_source_type(s@),
    {
        let base64 = ImageSourceType::Base64.to_json();
        if crate::text::str_eq(s, base64.as_str()) {
            return Some(ImageSourceType::Base64);
        }
        None
    }
}

/// The media type a wire text decodes to.
pub open spec fn spec_parse_image_media_type(s: Seq<char>) -> Option<ImageMediaType> {
    if s == spec_json_string(spec_image_media_type_str(ImageMediaType::Jpeg)) {
        Some(ImageMediaType::Jpeg)
    } else if s == spec_json_string(spec_image_media_type_str(ImageMediaType::Png)) {
        Some(ImageMediaType::Png)
    } else if s == spec_json_string(spec_image_media_type_str(ImageMediaType::Gif)) {
        Some(ImageMediaType::Gif)
    } else if s == spec_json_string(spec_image_media_type_str(ImageMediaType::Webp)) {
        Some(ImageMediaType::Webp)
    } else {
        None
    }
}

impl ImageMediaType {
    /// Deserializes a media type from its JSON wire form.
    pub fn from_json(s: &str) -> (r: Option<ImageMediaType>)
        ensures
            r == spec_parse_image_media_type(s@),
    {
        let jpeg = ImageMediaType::Jpeg.to_json();
        if crate::text::str_eq(s, jpeg.as_str()) {
            return Some(ImageMediaType::Jpeg);
        }
        let png = ImageMediaType::Png.to_json();
        if crate::text::str_eq(s, png.as_str()) {
            return Some(ImageMediaType::Png);
        }
        let gif = ImageMediaType::Gif.to_json();
        if crate::text::str_eq(s, gif.as_str()) {
            return Some(ImageMediaType::Gif);
        }
        let webp = ImageMediaType::Webp.to_json();
        if crate::text::str_eq(s, webp.as_str()) {
            return Some(ImageMediaType::Webp);
        }
        None
    }
}


pub open spec fn spec_indent(n: nat) -> Seq<char> {
    Seq::new(n, |i: int| ' ')
}

#[verifier::loop_isolation(false)]
fn push_spaces(out: &mut Vec<char>, n: usize)
    ensures
        final(out)@ == old(out)@ + spec_indent(n as nat),
{
    let mut i: usize = 0;
    while i < n
        invariant
            i <= n,
            out@ == old(out)@ + spec_indent(i as nat),
        decreases n - i,
    {
        out.push(' ');
        i = i + 1;
        assert(out@ =~= old(out)@ + spec_indent(i as nat));
    }
}

/// The readable multi-line form of an image source, indented by `ind`.
pub open spec fn spec_pretty_image_source(v: ImageContentSourceView, ind: nat) -> Seq<char> {
    "{\n"@ + spec_indent(ind + 2) + "\"type\": "@ + spec_json_string(
        spec_image_source_type_str(v._type),
    ) + ",\n"@ + spec_indent(ind + 2) + "\"media_type\": "@ + spec_json_string(
        spec_image_media_type_str(v.media_type),
    ) + ",\n"@ + spec_indent(ind + 2) + "\"data\": "@ + spec_json_string(v.data) + "\n"@
        + spec_indent(ind) + "}"@
}

fn pretty_image_source_into(out: &mut Vec<char>, v: &ImageContentSource, ind: usize)
    requires
        ind + 2 <= usize::MAX,
    ensures
        final(out)@ == old(out)@ + spec_pretty_image_source(v@, ind as nat),
{
    push_str_chars(out, "{\n");
    push_spaces(out, ind + 2);
    push_str_chars(out, "\"type\": ");
    let kind = v._type.to_string();
    json_string_into(out, kind.as_str());
    push_str_chars(out, ",\n");
    push_spaces(out, ind + 2);
    push_str_chars(out, "\"media_type\": ");
    let media = v.media_type.to_string();
    json_string_into(out, media.as_str());
    push_str_chars(out, ",\n");
    push_spaces(out, ind + 2);
    push_str_chars(out, "\"data\": ");
    json_string_into(out, v.data.as_str());
    push_str_chars(out, "\n");
    push_spaces(out, ind);
    push_str_chars(out, "}");
    assert(out@ =~= old(out)@ + spec_pretty_image_source(v@, ind as nat));
}

/// The readable multi-line form of a text block, indented by `ind`.
pub open spec fn spec_pretty_text_block(v: TextContentBlockView, ind: nat) -> Seq<char> {
    "{\n"@ + spec_indent(ind + 2) + "\"type\": "@ + spec_json_string(
        spec_content_type_str(v._type),
    ) + ",\n"@ + spec_indent(ind + 2) + "\"text\": "@ + spec_json_string(v.text) + "\n"@
        + spec_indent(ind) + "}"@
}

fn pretty_text_block_into(out: &mut Vec<char>, v: &TextContentBlock, ind: usize)
    requires
        ind + 2 <= usize::MAX,
    ensures
        final(out)@ == old(out)@ + spec_pretty_text_block(v@, ind as nat),
{
    push_str_chars(out, "{\n");
    push_spaces(out, ind + 2);
    push_str_chars(out, "\"type\": ");
    let tag = v._type.to_string();
    json_string_into(out, tag.as_str());
    push_str_chars(out, ",\n");
    push_spaces(out, ind + 2);
    push_str_chars(out, "\"text\": ");
    json_string_into(out, v.text.as_str());
    push_str_chars(out, "\n");
    push_spaces(out, ind);
    push_str_chars(out, "}");
    assert(out@ =~= old(out)@ + spec_pretty_text_block(v@, ind as nat));
}

/// The readable multi-line form of an image block, indented by `ind`.
pub open spec fn spec_pretty_image_block(v: ImageContentBlockView, ind: nat) -> Seq<char> {
    "{\n"@ + spec_indent(ind + 2) + "\"type\": "@ + spec_json_string(
        spec_content_type_str(v._type),
    ) + ",\n"@ + spec_indent(ind + 2) + "\"source\": "@ + spec_pretty_image_source(
        v.source,
        ind + 2,
    ) + "\n"@ + spec_indent(ind) + "}"@
}

#[verifier::rlimit(100)]
#[verifier::spinoff_prover]
fn pretty_image_block_into(out: &mut Vec<char>, v: &ImageContentBlock, ind: usize)
    requires
        ind + 4 <= usize::MAX,
    ensures
        final(out)@ == old(out)@ + spec_pretty_image_block(v@, ind as nat),
{
    push_str_chars(out, "{\n");
    push_spaces(out, ind + 2);
    push_str_chars(out, "\"type\": ");
    let tag = v._type.to_string();
    json_string_into(out, tag.as_str());
    push_str_chars(out, ",\n");
    push_spaces(out, ind + 2);
    push_str_chars(out, "\"source\": ");
    pretty_image_source_into(out, &v.source, ind + 2);
    push_str_chars(out, "\n");
    push_spaces(out, ind);
    push_str_chars(out, "}");
    assert(out@ =~= old(out)@ + spec_pretty_image_block(v@, ind as nat));
}

/// The readable multi-line form of a content block, indented by `ind`.
pub open spec fn spec_pretty_block(v: ContentBlockView, ind: nat) -> Seq<char> {
    match v {
        ContentBlockView::Text(b) => spec_pretty_text_block(b, ind),
        ContentBlockView::Image(b) => spec_pretty_image_block(b, ind),
    }
}

fn pretty_block_into(out: &mut Vec<char>, v: &ContentBlock, ind: usize)
    requires
        ind + 4 <= usize::MAX,
    ensures
        final(out)@ == old(out)@ + spec_pretty_block(v@, ind as nat),
{
    match v {
        ContentBlock::Text(b) => pretty_text_block_into(out, b, ind),
        ContentBlock::Image(b) => pretty_image_block_into(out, b, ind),
    }
}

/// The comma-and-newline-joined readable forms of a sequence of blocks,
/// each indented by `ind`.
pub open spec fn spec_pretty_blocks(blocks: Seq<ContentBlockView>, ind: nat) -> Seq<char>
    decreases blocks.len(),
{
    if blocks.len() == 0 {
        Seq::empty()
    } else if blocks.len() == 1 {
        spec_indent(ind) + spec_pretty_block(blocks[0], ind)
    } else {
        spec_pretty_blocks(blocks.drop_last(), ind) + ",\n"@ + spec_indent(ind)
            + spec_pretty_block(blocks[blocks.len() - 1], ind)
    }
}

/// The readable multi-line form of content: a bare JSON string for a single
/// text; for multiple blocks a bracketed, newline-separated list, or an
/// empty bracket pair when the list is empty.
pub open spec fn spec_pretty_content(v: ContentView, ind: nat) -> Seq<char> {
    match v {
        ContentView::SingleText(text) => spec_json_string(text),
        ContentView::MultipleBlocks(blocks) => if blocks.len() == 0 {
            "[]"@
        } else {
            "[\n"@ + spec_pretty_blocks(blocks, ind + 2) + "\n"@ + spec_indent(ind) + "]"@
        },
    }
}

#[verifier::loop_isolation(false)]
fn pretty_blocks_into(out: &mut Vec<char>, blocks: &Vec<ContentBlock>, ind: usize)
    requires
        ind + 4 <= usize::MAX,
    ensures
        final(out)@ == old(out)@ + spec_pretty_blocks(
            crate::messages::content::spec_blocks_view(blocks@),
            ind as nat,
        ),
{
    let ghost bv = crate::messages::content::spec_blocks_view(blocks@);
    let n = blocks.len();
    let mut k: usize = 0;
    while k < n
        invariant
            k <= n,
            n == blocks@.len(),
            bv == crate::messages::content::spec_blocks_view(blocks@),
            bv.len() == n,
            out@ == old(out)@ + spec_pretty_blocks(bv.subrange(0, k as int), ind as nat),
        decreases n - k,
    {
        if k > 0 {
            push_str_chars(out, ",\n");
        }
        push_spaces(out, ind);
        pretty_block_into(out, &blocks[k], ind);
        k = k + 1;
        proof {
            let prefix = bv.subrange(0, k as int);
            assert(prefix.drop_last() =~= bv.subrange(0, k - 1));
            assert(prefix[k - 1] == bv[k - 1]);
            assert(out@ =~= old(out)@ + spec_pretty_blocks(prefix, ind as nat));
        }
    }
    assert(bv.subrange(0, n as int) =~= bv);
}

impl Content {
    /// Renders the content in its readable multi-line form.
    pub fn to_string(&self) -> (r: String)
        ensures
            r@ == spec_pretty_content(self@, 0),
    {
        let mut out: Vec<char> = Vec::new();
        match self {
            Content::SingleText(text) => {
                json_string_into(&mut out, text.as_str());
            },
            Content::MultipleBlocks(blocks) => {
                if blocks.len() == 0 {
                    push_str_chars(&mut out, "[]");
                } else {
                    push_str_chars(&mut out, "[\n");
                    pretty_blocks_into(&mut out, blocks, 2);
                    push_str_chars(&mut out, "\n");
                    push_spaces(&mut out, 0);
                    push_str_chars(&mut out, "]");
                }
            },
        }
        assert(out@ =~= spec_pretty_content(self@, 0));
        chars_to_string(&out)
    }
}

impl ContentBlock {
    /// Renders the block in its readable multi-line form.
    pub fn to_string(&self) -> (r: String)
        ensures
            r@ == spec_pretty_block(self@, 0),
    {
        let mut out: Vec<char> = Vec::new();
        pretty_block_into(&mut out, self, 0);
        assert(out@ =~= spec_pretty_block(self@, 0));
        chars_to_string(&out)
    }
}

impl TextContentBlock {
    /// Renders the block in its readable multi-line form.
    pub fn to_string(&self) -> (r: String)
        ensures
            r@ == spec_pretty_text_block(self@, 0),
    {
        let mut out: Vec<char> = Vec::new();
        pretty_text_block_into(&mut out, self, 0);
        assert(out@ =~= spec_pretty_text_block(self@, 0));
        chars_to_string(&out)
    }
}

impl ImageContentBlock {
    /// Renders the block in its readable multi-line form.
    pub fn to_string(&self) -> (r: String)
        ensures
            r@ == spec_pretty_image_block(self@, 0),
    {
        let mut out: Vec<char> = Vec::new();
        pretty_image_block_into(&mut out, self, 0);
        assert(out@ =~= spec_pretty_image_block(self@, 0));
        chars_to_string(&out)
    }
}

impl ImageContentSource {
    /// Renders the source in its readable multi-line form.
    pub fn to_string(&self) -> (r: String)
        ensures
            r@ == spec_pretty_image_source(self@, 0),
    {
        let mut out: Vec<char> = Vec::new();
        pretty_image_source_into(&mut out, self, 0);
        assert(out@ =~= spec_pretty_image_source(self@, 0));
        chars_to_string(&out)
    }
}

impl Content {
    /// Serializes the content to its JSON wire form.
    pub fn to_json(&self) -> (r: String)
        ensures
            r@ == spec_json_of_content(self@),
    {
        let mut out: Vec<char> = Vec::new();
        match self {
            Content::SingleText(text) => {
                json_string_into(&mut out, text.as_str());
            },
            Content::MultipleBlocks(blocks) => {
                push_str_chars(&mut out, "[");
                json_blocks_into(&mut out, blocks);
                push_str_chars(&mut out, "]");
            },
        }
        assert(out@ =~= spec_json_of_content(self@));
        chars_to_string(&out)
    }
}

impl ContentBlock {
    /// Serializes the block to its JSON wire form.
    pub fn to_json(&self) -> (r: String)
        ensures
            r@ == spec_json_of_block(self@),
    {
        let mut out: Vec<char> = Vec::new();
        json_block_into(&mut out, self);
        assert(out@ =~= spec_json_of_block(self@));
        chars_to_string(&out)
    }
}

impl TextContentBlock {
    /// Serializes the block to its JSON wire form.
    pub fn to_json(&self) -> (r: String)
        ensures
            r@ == spec_json_of_text_block(self@),
    {
        let mut out: Vec<char> = Vec::new();
        json_text_block_into(&mut out, self);
        assert(out@ =~= spec_json_of_text_block(self@));
        chars_to_string(&out)
    }
}

impl ImageContentBlock {
    /// Serializes the block to its JSON wire form.
    pub fn to_json(&self) -> (r: String)
        ensures
            r@ == spec_json_of_image_block(self@),
    {
        let mut out: Vec<char> = Vec::new();
        json_image_block_into(&mut out, self);
        assert(out@ =~= spec_json_of_image_block(self@));
        chars_to_string(&out)
    }
}

impl ImageContentSource {
    /// Serializes the source to its JSON wire form.
    pub fn to_json(&self) -> (r: String)
        ensures
            r@ == spec_json_of_image_source(self@),
    {
        let mut out: Vec<char> = Vec::new();
        json_image_source_into(&mut out, self);
        assert(out@ =~= spec_json_of_image_source(self@));
        chars_to_string(&out)
    }
}

impl ContentType {
    /// Serializes the tag to its JSON wire form: its name as a JSON string.
    pub fn to_json(&self) -> (r: String)
        ensures
            r@ == spec_json_string(spec_content_type_str(*self)),
    {
        let mut out: Vec<char> = Vec::new();
        let name = self.to_string();
        json_string_into(&mut out, name.as_str());
        chars_to_string(&out)
    }
}

impl ImageSourceType {
    /// Serializes the encoding kind to its JSON wire form.
    pub fn to_json(&self) -> (r: String)
        ensures
            r@ == spec_json_string(spec_image_source_type_str(*self)),
    {
        let mut out: Vec<char> = Vec::new();
        let name = self.to_string();
        json_string_into(&mut out, name.as_str());
        chars_to_string(&out)
    }
}

impl ImageMediaType {
    /// Serializes the media type to its JSON wire form.
    pub fn to_json(&self) -> (r: String)
        ensures
            r@ == spec_json_string(spec_image_media_type_str(*self)),
    {
        let mut out: Vec<char> = Vec::new();
        let name = self.to_string();
        json_string_into(&mut out, name.as_str());
        chars_to_string(&out)
    }
}

/// A well-formed block carries the tag of its variant, as every constructed
/// block does.
pub open spec fn spec_wf_block(v: ContentBlockView) -> bool {
    match v {
        ContentBlockView::Text(b) => b._type == ContentType::Text,
        ContentBlockView::Image(b) => b._type == ContentType::Image,
    }
}

/// Well-formed content: every block carries the tag of its variant.
pub open spec fn spec_wf_content(v: ContentView) -> bool {
    match v {
        ContentView::SingleText(_) => true,
        ContentView::MultipleBlocks(blocks) => forall|k: int|
            0 <= k < blocks.len() ==> spec_wf_block(blocks[k]),
    }
}

proof fn lemma_json_escape_left(s: Seq<char>)
    requires
        s.len() > 0,
    ensures
        spec_json_escape(s) == spec_escape_char(s[0]) + spec_json_escape(s.drop_first()),
    decreases s.len(),
{
    if s.len() == 1 {
        assert(s.drop_last() =~= Seq::<char>::empty());
        assert(s.drop_first() =~= Seq::<char>::empty());
        assert(spec_json_escape(s) =~= spec_escape_char(s[0]) + spec_json_escape(s.drop_first()));
    } else {
        let t = s.drop_last();
        lemma_json_escape_left(t);
        let s1 = s.drop_first();
        assert(s1.drop_last() =~= t.drop_first());
        assert(s1[s1.len() - 1] == s[s.len() - 1]);
        assert(spec_json_escape(s1) == spec_json_escape(t.drop_first()) + spec_escape_char(
            s[s.len() - 1],
        ));
        assert(spec_json_escape(s) =~= spec_escape_char(s[0]) + spec_json_escape(s1));
    }
}

proof fn lemma_parse_escaped_body(s: Seq<char>, i: int, t: Seq<char>)
    requires
        0 <= i,
        i + spec_json_escape(t).len() + 1 <= s.len(),
        s.subrange(i, i + spec_json_escape(t).len() as int) == spec_json_escape(t),
        s[i + spec_json_escape(t).len()] == '"',
    ensures
        spec_parse_string_body(s, i) == Some((t, i + spec_json_escape(t).len() + 1)),
    decreases t.len(),
{
    let esc = spec_json_escape(t);
    assert(forall|k: int| 0 <= k < esc.len() ==> s[i + k] == #[trigger] esc[k]) by {
        assert(forall|k: int|
            0 <= k < esc.len() ==> #[trigger] s.subrange(i, i + esc.len() as int)[k] == s[i + k]);
    }
    if t.len() == 0 {
        assert(esc.len() == 0);
        assert(s[i] == '"');
    } else {
        let c = t[0];
        let e = spec_escape_char(c);
        let t1 = t.drop_first();
        let esc1 = spec_json_escape(t1);
        lemma_json_escape_left(t);
        assert(esc == e + esc1);
        assert(forall|k: int| 0 <= k < e.len() ==> e[k] == #[trigger] esc[k]);
        assert(forall|k: int| 0 <= k < esc1.len() ==> #[trigger] esc1[k] == esc[e.len() + k]);
        let next = i + e.len() as int;
        assert(s.subrange(next, next + esc1.len() as int) =~= esc1);
        assert(s[next + esc1.len()] == '"');
        lemma_parse_escaped_body(s, next, t1);
        assert(seq![c] + t1 =~= t);
        if c == '"' || c == '\\' || c == '\u{8}' || c == '\t' || c == '\n' || c == '\u{c}' || c
            == '\r' {
            assert(e.len() == 2);
            assert(esc[0] == e[0]);
            assert(esc[1] == e[1]);
            assert(s[i + 0] == esc[0]);
            assert(s[i + 1] == esc[1]);
            assert(s[i] == '\\');
            assert(spec_parse_string_body(s, i) == Some((t, i + esc.len() + 1)));
        } else {
            assert(e.len() == 1);
            assert(esc[0] == e[0]);
            assert(s[i + 0] == esc[0]);
            assert(s[i] == c);
            assert(spec_parse_string_body(s, i) == Some((t, i + esc.len() + 1)));
        }
    }
}

/// A JSON string occurring at `i` parses back to exactly the text it
/// encodes, consuming exactly its own characters.
proof fn lemma_parse_json_string_embedded(s: Seq<char>, i: int, t: Seq<char>)
    requires
        0 <= i,
        contains_at(s, spec_json_string(t), i),
    ensures
        spec_parse_json_string(s, i) == Some((t, i + spec_json_string(t).len() as int)),
{
    reveal_strlit("\"");
    let js = spec_json_string(t);
    let esc = spec_json_escape(t);
    assert(js == "\""@ + esc + "\""@);
    lemma_contains_at_concat(s, "\""@ + esc, "\""@, i);
    lemma_contains_at_concat(s, "\""@, esc, i);
    assert(s.subrange(i, i + 1) =~= "\""@);
    assert(s[i] == "\""@[0]) by {
        assert(s.subrange(i, i + 1)[0] == s[i]);
    }
    assert(s[i] == '"');
    assert(s[i + 1 + esc.len()] == '"') by {
        assert(s.subrange(i + 1 + esc.len(), i + 1 + esc.len() + 1)[0] == s[i + 1 + esc.len()]);
        assert(s.subrange(i + 1 + esc.len(), i + 1 + esc.len() + 1) =~= "\""@);
    }
    lemma_parse_escaped_body(s, i + 1, t);
}

/// Reading the wire name of a media type back gives the same media type.
proof fn lemma_media_type_of_str_round_trip(media: ImageMediaType)
    ensures
        spec_media_type_of_str(spec_image_media_type_str(media)) == Some(media),
{
    reveal_strlit("image/jpeg");
    reveal_strlit("image/png");
    reveal_strlit("image/gif");
    reveal_strlit("image/webp");
    assert("image/gif"@[6] != "image/png"@[6]);
    assert("image/webp"@[6] != "image/jpeg"@[6]);
}

/// An encoded image source occurring at `i` parses back to exactly the
/// source it encodes.
proof fn lemma_parse_image_source_embedded(s: Seq<char>, i: int, v: ImageContentSourceView)
    requires
        0 <= i,
        contains_at(s, spec_json_of_image_source(v), i),
    ensures
        spec_parse_image_source_at(s, i) == Some(
            (v, i + spec_json_of_image_source(v).len() as int),
        ),
{
    reveal_strlit("}");
    let kind_js = spec_json_string(spec_image_source_type_str(v._type));
    let media_js = spec_json_string(spec_image_media_type_str(v.media_type));
    let data_js = spec_json_string(v.data);
    let p1 = "{\"type\":"@ + kind_js;
    let p2 = p1 + ",\"media_type\":"@;
    let p3 = p2 + media_js;
    let p4 = p3 + ",\"data\":"@;
    let p5 = p4 + data_js;
    lemma_contains_at_concat(s, p5, "}"@, i);
    lemma_contains_at_concat(s, p4, data_js, i);
    lemma_contains_at_concat(s, p3, ",\"data\":"@, i);
    lemma_contains_at_concat(s, p2, media_js, i);
    lemma_contains_at_concat(s, p1, ",\"media_type\":"@, i);
    lemma_contains_at_concat(s, "{\"type\":"@, kind_js, i);
    lemma_parse_json_string_embedded(s, i + "{\"type\":"@.len() as int, spec_image_source_type_str(v._type));
    lemma_parse_json_string_embedded(s, i + p2.len() as int, spec_image_media_type_str(v.media_type));
    lemma_parse_json_string_embedded(s, i + p4.len() as int, v.data);
    lemma_media_type_of_str_round_trip(v.media_type);
    let close_at = i + p5.len() as int;
    assert(s[close_at] == '}') by {
        assert(contains_at(s, "}"@, close_at));
        assert(s.subrange(close_at, close_at + 1)[0] == s[close_at]);
        assert(s.subrange(close_at, close_at + 1) =~= "}"@);
    }
}

/// Reading a tag name back tells the two block variants apart.
proof fn lemma_tag_names_distinct()
    ensures
        spec_content_type_str(ContentType::Text) != spec_content_type_str(ContentType::Image),
{
    reveal_strlit("text");
    reveal_strlit("image");
    assert("text"@.len() == 4);
    assert("image"@.len() == 5);
}

/// An encoded well-formed block occurring at `i` parses back to exactly the
/// block it encodes.
proof fn lemma_parse_block_embedded(s: Seq<char>, i: int, v: ContentBlockView)
    requires
        0 <= i,
        spec_wf_block(v),
        contains_at(s, spec_json_of_block(v), i),
    ensures
        spec_parse_block_at(s, i) == Some((v, i + spec_json_of_block(v).len() as int)),
{
    reveal_strlit("}");
    lemma_tag_names_distinct();
    match v {
        ContentBlockView::Text(b) => {
            let tag_js = spec_json_string(spec_content_type_str(b._type));
            let text_js = spec_json_string(b.text);
            let p1 = "{\"type\":"@ + tag_js;
            let p2 = p1 + ",\"text\":"@;
            let p3 = p2 + text_js;
            lemma_contains_at_concat(s, p3, "}"@, i);
            lemma_contains_at_concat(s, p2, text_js, i);
            lemma_contains_at_concat(s, p1, ",\"text\":"@, i);
            lemma_contains_at_concat(s, "{\"type\":"@, tag_js, i);
            lemma_parse_json_string_embedded(s, i + "{\"type\":"@.len() as int, spec_content_type_str(b._type));
            lemma_parse_json_string_embedded(s, i + p2.len() as int, b.text);
            let close_at = i + p3.len() as int;
            assert(s[close_at] == '}') by {
                assert(contains_at(s, "}"@, close_at));
                assert(s.subrange(close_at, close_at + 1)[0] == s[close_at]);
                assert(s.subrange(close_at, close_at + 1) =~= "}"@);
            }
        },
        ContentBlockView::Image(b) => {
            let tag_js = spec_json_string(spec_content_type_str(b._type));
            let source_enc = spec_json_of_image_source(b.source);
            let p1 = "{\"type\":"@ + tag_js;
            let p2 = p1 + ",\"source\":"@;
            let p3 = p2 + source_enc;
            lemma_contains_at_concat(s, p3, "}"@, i);
            lemma_contains_at_concat(s, p2, source_enc, i);
            lemma_contains_at_concat(s, p1, ",\"source\":"@, i);
            lemma_contains_at_concat(s, "{\"type\":"@, tag_js, i);
            lemma_parse_json_string_embedded(s, i + "{\"type\":"@.len() as int, spec_content_type_str(b._type));
            lemma_parse_image_source_embedded(s, i + p2.len() as int, b.source);
            let close_at = i + p3.len() as int;
            assert(s[close_at] == '}') by {
                assert(contains_at(s, "}"@, close_at));
                assert(s.subrange(close_at, close_at + 1)[0] == s[close_at]);
                assert(s.subrange(close_at, close_at + 1) =~= "}"@);
            }
        },
    }
}

proof fn lemma_json_of_blocks_left(blocks: Seq<ContentBlockView>)
    requires
        blocks.len() > 0,
    ensures
        blocks.len() == 1 ==> spec_json_of_blocks(blocks) == spec_json_of_block(blocks[0]),
        blocks.len() > 1 ==> spec_json_of_blocks(blocks) == spec_json_of_block(blocks[0]) + ","@
            + spec_json_of_blocks(blocks.drop_first()),
    decreases blocks.len(),
{
    if blocks.len() == 1 {
    } else if blocks.len() == 2 {
        let b1 = blocks.drop_first();
        assert(blocks.drop_last() =~= seq![blocks[0]]);
        assert(b1 =~= seq![blocks[1]]);
        assert(spec_json_of_blocks(seq![blocks[0]]) == spec_json_of_block(blocks[0]));
        assert(spec_json_of_blocks(seq![blocks[1]]) == spec_json_of_block(blocks[1]));
        assert(spec_json_of_blocks(blocks) =~= spec_json_of_block(blocks[0]) + ","@
            + spec_json_of_blocks(b1));
    } else {
        let t = blocks.drop_last();
        lemma_json_of_blocks_left(t);
        let b1 = blocks.drop_first();
        assert(b1.drop_last() =~= t.drop_first());
        assert(b1[b1.len() - 1] == blocks[blocks.len() - 1]);
        assert(spec_json_of_blocks(b1) == spec_json_of_blocks(t.drop_first()) + ","@
            + spec_json_of_block(blocks[blocks.len() - 1]));
        assert(spec_json_of_blocks(blocks) =~= spec_json_of_block(blocks[0]) + ","@
            + spec_json_of_blocks(b1));
    }
}

/// The length of an encoded block is positive.
proof fn lemma_json_of_block_len(v: ContentBlockView)
    ensures
        spec_json_of_block(v).len() > 0,
{
    reveal_strlit("{\"type\":");
}

/// An encoded, well-formed, non-empty block list followed by the closing
/// bracket parses back to exactly that list.
proof fn lemma_parse_blocks_rest_embedded(s: Seq<char>, i: int, blocks: Seq<ContentBlockView>)
    requires
        0 <= i,
        blocks.len() > 0,
        forall|k: int| 0 <= k < blocks.len() ==> spec_wf_block(#[trigger] blocks[k]),
        contains_at(s, spec_json_of_blocks(blocks) + "]"@, i),
    ensures
        spec_parse_blocks_rest(s, i) == Some(
            (blocks, i + spec_json_of_blocks(blocks).len() + "]"@.len()),
        ),
    decreases blocks.len(),
{
    reveal_strlit("]");
    reveal_strlit(",");
    lemma_json_of_blocks_left(blocks);
    lemma_json_of_block_len(blocks[0]);
    let b0 = blocks[0];
    let b0_enc = spec_json_of_block(b0);
    if blocks.len() == 1 {
        lemma_contains_at_concat(s, b0_enc, "]"@, i);
        lemma_parse_block_embedded(s, i, b0);
        let j = i + b0_enc.len() as int;
        assert(s[j] == ']') by {
            assert(contains_at(s, "]"@, j));
            assert(s.subrange(j, j + 1)[0] == s[j]);
            assert(s.subrange(j, j + 1) =~= "]"@);
        }
        assert(seq![b0] =~= blocks);
    } else {
        let rest = blocks.drop_first();
        let rest_enc = spec_json_of_blocks(rest);
        assert(spec_json_of_blocks(blocks) + "]"@ =~= b0_enc + (","@ + (rest_enc + "]"@)));
        lemma_contains_at_concat(s, b0_enc, ","@ + (rest_enc + "]"@), i);
        lemma_parse_block_embedded(s, i, b0);
        let j = i + b0_enc.len() as int;
        lemma_contains_at_concat(s, ","@, rest_enc + "]"@, j);
        assert(s[j] == ',') by {
            assert(contains_at(s, ","@, j));
            assert(s.subrange(j, j + 1)[0] == s[j]);
            assert(s.subrange(j, j + 1) =~= ","@);
        }
        assert(forall|k: int| 0 <= k < rest.len() ==> spec_wf_block(#[trigger] rest[k]));
        lemma_parse_blocks_rest_embedded(s, j + 1, rest);
        assert(seq![b0] + rest =~= blocks);
    }
}

/// Law: serialization is shape-preserving. Encoding well-formed content and
/// decoding the result yields equal content: a single text comes back as
/// the same single text, and a block list as the same block list. (A block
/// whose tag field contradicts its variant does not round-trip; every block
/// the library constructs is well-formed.)
#[verifier::rlimit(100)]
#[verifier::spinoff_prover]
proof fn lemma_single_text_round_trip(t: Seq<char>)
    ensures
        spec_parse_content(spec_json_of_content(ContentView::SingleText(t)))
            == Some(ContentView::SingleText(t)),
{
    reveal_strlit("\"");
    let s = spec_json_string(t);
    assert(s.subrange(0, s.len() as int) =~= s);
    assert(contains_at(s, s, 0));
    lemma_parse_json_string_embedded(s, 0, t);
    assert(s.len() >= 2);
    assert(s =~= "\""@ + (spec_json_escape(t) + "\""@));
    assert(s[0] == '"') by {
        lemma_contains_at_concat(s, "\""@, spec_json_escape(t) + "\""@, 0);
        assert(s.subrange(0, 1)[0] == s[0]);
        assert(s.subrange(0, 1) =~= "\""@);
    }
}

#[verifier::rlimit(100)]
#[verifier::spinoff_prover]
proof fn lemma_multiple_blocks_round_trip(blocks: Seq<ContentBlockView>)
    requires
        forall|k: int| 0 <= k < blocks.len() ==> spec_wf_block(#[trigger] blocks[k]),
    ensures
        spec_parse_content(spec_json_of_content(ContentView::MultipleBlocks(blocks)))
            == Some(ContentView::MultipleBlocks(blocks)),
{
    reveal_strlit("\"");
    reveal_strlit("[");
    reveal_strlit("]");
    let s = spec_json_of_content(ContentView::MultipleBlocks(blocks));
    assert(s =~= "["@ + (spec_json_of_blocks(blocks) + "]"@));
    assert(s.subrange(0, s.len() as int) =~= s);
    assert(contains_at(s, s, 0));
    lemma_contains_at_concat(s, "["@, spec_json_of_blocks(blocks) + "]"@, 0);
    assert(s[0] == '[') by {
        assert(s.subrange(0, 1)[0] == s[0]);
        assert(s.subrange(0, 1) =~= "["@);
    }
    assert(s[0] != '"');
    if blocks.len() == 0 {
        assert(spec_json_of_blocks(blocks) =~= Seq::<char>::empty());
        assert(s.len() == 2);
        assert(s[1] == ']') by {
            assert(contains_at(s, "]"@, 1));
            assert(s.subrange(1, 2)[0] == s[1]);
            assert(s.subrange(1, 2) =~= "]"@);
        }
        assert(blocks =~= Seq::<ContentBlockView>::empty());
    } else {
        lemma_json_of_blocks_left(blocks);
        lemma_json_of_block_len(blocks[0]);
        assert(s.len() > 2);
        lemma_parse_blocks_rest_embedded(s, 1, blocks);
    }
}

/// Law: serialization is shape-preserving. Encoding well-formed content and
/// decoding the result yields equal content: a single text comes back as
/// the same single text, and a block list as the same block list. (A block
/// whose tag field contradicts its variant does not round-trip; every block
/// the library constructs is well-formed.)
pub proof fn lemma_content_json_round_trip(v: ContentView)
    requires
        spec_wf_content(v),
    ensures
        spec_parse_content(spec_json_of_content(v)) == Some(v),
{
    match v {
        ContentView::SingleText(t) => {
            lemma_single_text_round_trip(t);
        },
        ContentView::MultipleBlocks(blocks) => {
            lemma_multiple_blocks_round_trip(blocks);
        },
    }
}

} // verus!
