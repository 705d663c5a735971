//! Decoding a delimited invocation span into a structured invocation:
//! a tool name and a keyed parameter list.
//!
//! The span is a small fixed-shape pseudo-XML document: one `<invoke>`
//! element holding a `<tool_name>` element and a `<parameters>` element
//! whose children are arbitrary-named leaf elements, each contributing one
//! key/value pair. Keys that repeat keep their first occurrence; entries
//! keep document order.

use vstd::prelude::*;

use crate::messages::error::FunctionCallsDecodingError;
use crate::text::{chars_to_string, contains_at, find_first, find_pattern, push_chars, str_eq, str_to_chars, subrange_vec};

verus! {

/// True for the whitespace accepted between elements of the span.
pub open spec fn is_ws(c: char) -> bool {
    c == ' ' || c == '\n' || c == '\r' || c == '\t'
}

fn is_ws_char(c: char) -> (r: bool)
    ensures
        r == is_ws(c),
{
    c == ' ' || c == '\n' || c == '\r' || c == '\t'
}

/// Index of the first character at or after `i` that is not whitespace.
pub open spec fn skip_ws(s: Seq<char>, i: int) -> int
    decreases s.len() - i,
{
    if 0 <= i < s.len() && is_ws(s[i]) {
        skip_ws(s, i + 1)
    } else {
        i
    }
}

#[verifier::loop_isolation(false)]
fn skip_ws_exec(v: &Vec<char>, i: usize) -> (r: usize)
    requires
        i <= v@.len(),
    ensures
        r as int == skip_ws(v@, i as int),
        i <= r <= v@.len(),
{
    let n = v.len();
    let mut r: usize = i;
    while r < n && is_ws_char(v[r])
        invariant
            i <= r <= n,
            n == v@.len(),
            skip_ws(v@, i as int) == skip_ws(v@, r as int),
        decreases n - r,
    {
        r = r + 1;
    }
    r
}

/// A valid parameter key: non-empty, not a closing tag, and free of
/// whitespace and angle brackets.
pub open spec fn spec_valid_key(key: Seq<char>) -> bool {
    &&& key.len() > 0
    &&& key[0] != '/'
    &&& forall|k: int| 0 <= k < key.len() ==> key[k] != '<' && key[k] != '>' && !is_ws(key[k])
}

#[verifier::loop_isolation(false)]
fn valid_key(key: &Vec<char>) -> (r: bool)
    ensures
        r == spec_valid_key(key@),
{
    let n = key.len();
    if n == 0 {
        return false;
    }
    if key[0] == '/' {
        return false;
    }
    let mut k: usize = 0;
    while k < n
        invariant
            k <= n,
            n == key@.len(),
            forall|m: int| 0 <= m < k ==> key@[m] != '<' && key@[m] != '>' && !is_ws(key@[m]),
        decreases n - k,
    {
        let c = key[k];
        if c == '<' || c == '>' || is_ws_char(c) {
            return false;
        }
        k = k + 1;
    }
    true
}

/// The view of a parameter list: key/value pairs over character sequences.
pub open spec fn pairs_view(entries: Seq<(String, String)>) -> Seq<(Seq<char>, Seq<char>)> {
    entries.map_values(|p: (String, String)| (p.0@, p.1@))
}

/// The key/value pairs read from the children of `<parameters>`, in document
/// order and duplicates included, starting at `i`: each child is a leaf
/// element `<key>value</key>`, with whitespace allowed between elements;
/// `None` when the region does not have that shape.
pub open spec fn spec_parse_param_entries(region: Seq<char>, i: int) -> Option<
    Seq<(Seq<char>, Seq<char>)>,
>
    decreases region.len() - i,
{
    if !(0 <= i <= region.len()) {
        None
    } else {
        let j = skip_ws(region, i);
        if !(i <= j <= region.len()) {
            None
        } else if j == region.len() {
            Some(Seq::empty())
        } else if region[j] != '<' {
            None
        } else {
            match find_first(region, seq!['>'], j + 1) {
                None => None,
                Some(g) => {
                    let key = region.subrange(j + 1, g);
                    if !spec_valid_key(key) {
                        None
                    } else {
                        let close = seq!['<', '/'] + key + seq!['>'];
                        match find_first(region, close, g + 1) {
                            None => None,
                            Some(c) => {
                                let value = region.subrange(g + 1, c);
                                let next = c + close.len();
                                if !(j < next <= region.len()) {
                                    None
                                } else {
                                    match spec_parse_param_entries(region, next) {
                                        None => None,
                                        Some(rest) => Some(seq![(key, value)] + rest),
                                    }
                                }
                            },
                        }
                    }
                },
            }
        }
    }
}

/// Reads the key/value pairs of a `<parameters>` region, duplicates
/// included.
#[verifier::loop_isolation(false)]
fn parse_param_entries(region: &Vec<char>) -> (r: Option<Vec<(String, String)>>)
    ensures
        match r {
            Some(entries) => spec_parse_param_entries(region@, 0) == Some(pairs_view(entries@)),
            None => spec_parse_param_entries(region@, 0) is None,
        },
{
    let n = region.len();
    let mut out: Vec<(String, String)> = Vec::new();
    let mut i: usize = 0;
    loop
        invariant
            i <= n,
            n == region@.len(),
            spec_parse_param_entries(region@, 0) == (match spec_parse_param_entries(
                region@,
                i as int,
            ) {
                Some(rest) => Some(pairs_view(out@) + rest),
                None => None::<Seq<(Seq<char>, Seq<char>)>>,
            }),
        decreases n - i,
    {
        let j = skip_ws_exec(region, i);
        if j == n {
            assert(pairs_view(out@) + Seq::<(Seq<char>, Seq<char>)>::empty() =~= pairs_view(out@));
            return Some(out);
        }
        if region[j] != '<' {
            return None;
        }
        let mut gt: Vec<char> = Vec::new();
        gt.push('>');
        assert(gt@ =~= seq!['>']);
        let g = match find_pattern(region, &gt, j + 1) {
            Some(g) => g,
            None => {
                return None;
            },
        };
        proof {
            crate::text::lemma_find_first_characterization(region@, gt@, j + 1);
            assert(contains_at(region@, gt@, g as int));
        }
        let key = subrange_vec(region, j + 1, g);
        if !valid_key(&key) {
            return None;
        }
        let mut close: Vec<char> = Vec::new();
        close.push('<');
        close.push('/');
        push_chars(&mut close, &key);
        close.push('>');
        assert(close@ =~= seq!['<', '/'] + key@ + seq!['>']);
        let c = match find_pattern(region, &close, g + 1) {
            Some(c) => c,
            None => {
                return None;
            },
        };
        proof {
            crate::text::lemma_find_first_characterization(region@, close@, g + 1);
            assert(contains_at(region@, close@, c as int));
        }
        let value = subrange_vec(region, g + 1, c);
        let next = c + close.len();
        let ghost prefix = pairs_view(out@);
        out.push((chars_to_string(&key), chars_to_string(&value)));
        proof {
            assert(pairs_view(out@) =~= prefix + seq![(key@, value@)]);
            match spec_parse_param_entries(region@, next as int) {
                Some(rest) => {
                    assert(prefix + (seq![(key@, value@)] + rest) =~= pairs_view(out@) + rest);
                },
                None => {},
            }
        }
        i = next;
    }
}

/// Keeps the first occurrence of every key, in document order.
pub open spec fn spec_dedup_keys(entries: Seq<(Seq<char>, Seq<char>)>) -> Seq<
    (Seq<char>, Seq<char>),
>
    decreases entries.len(),
{
    if entries.len() == 0 {
        Seq::empty()
    } else {
        let front = spec_dedup_keys(entries.drop_last());
        let last = entries[entries.len() - 1];
        if exists|j: int| 0 <= j < entries.len() - 1 && entries[j].0 == last.0 {
            front
        } else {
            front + seq![last]
        }
    }
}

/// Drops every entry whose key already occurred earlier in the list.
#[verifier::loop_isolation(false)]
fn dedup_first_wins(entries: &Vec<(String, String)>) -> (r: Vec<(String, String)>)
    ensures
        pairs_view(r@) == spec_dedup_keys(pairs_view(entries@)),
{
    let n = entries.len();
    let mut out: Vec<(String, String)> = Vec::new();
    let mut i: usize = 0;
    while i < n
        invariant
            i <= n,
            n == entries@.len(),
            pairs_view(out@) == spec_dedup_keys(pairs_view(entries@).subrange(0, i as int)),
        decreases n - i,
    {
        let mut dup = false;
        let mut k: usize = 0;
        while k < i
            invariant
                k <= i <= n,
                n == entries@.len(),
                dup == exists|j: int|
                    0 <= j < k && pairs_view(entries@)[j].0 == pairs_view(entries@)[i as int].0,
            decreases i - k,
        {
            let same_key = str_eq(entries[k].0.as_str(), entries[i].0.as_str());
            proof {
                assert(pairs_view(entries@)[k as int].0 == entries@[k as int].0@);
                assert(pairs_view(entries@)[i as int].0 == entries@[i as int].0@);
            }
            if same_key {
                dup = true;
            }
            k = k + 1;
        }
        if !dup {
            let key = entries[i].0.clone();
            let value = entries[i].1.clone();
            out.push((key, value));
        }
        i = i + 1;
        proof {
            let pv = pairs_view(entries@);
            assert(pv.subrange(0, i as int).drop_last() =~= pv.subrange(0, i - 1));
            assert(pv.subrange(0, i as int)[i - 1] == pv[i - 1]);
            assert(forall|j: int| 0 <= j < i - 1 ==> pv.subrange(0, i as int)[j] == pv[j]);
            if !dup {
                assert(pairs_view(out@) =~= spec_dedup_keys(pv.subrange(0, i - 1)) + seq![
                    pv[i - 1],
                ]);
            }
        }
    }
    proof {
        assert(pairs_view(entries@).subrange(0, n as int) =~= pairs_view(entries@));
    }
    out
}

/// A structured invocation decoded from a delimited span.
#[derive(Debug, Clone)]
pub struct Invoke {
    /// The name of the tool to invoke.
    pub tool_name: String,
    /// The invocation parameters: unique keys mapped to values, in document
    /// order of their first occurrence.
    pub parameters: Vec<(String, String)>,
}

/// The view of an `Invoke`.
pub struct InvokeView {
    pub tool_name: Seq<char>,
    pub parameters: Seq<(Seq<char>, Seq<char>)>,
}

impl View for Invoke {
    type V = InvokeView;

    open spec fn view(&self) -> InvokeView {
        InvokeView { tool_name: self.tool_name@, parameters: pairs_view(self.parameters@) }
    }
}

impl PartialEq for Invoke {
    #[verifier::loop_isolation(false)]
    fn eq(&self, other: &Self) -> (r: bool) {
        if !str_eq(self.tool_name.as_str(), other.tool_name.as_str()) {
            return false;
        }
        if self.parameters.len() != other.parameters.len() {
            assert(self@.parameters.len() != other@.parameters.len());
            return false;
        }
        let n = self.parameters.len();
        let mut k: usize = 0;
        while k < n
            invariant
                k <= n,
                n == self.parameters@.len(),
                n == other.parameters@.len(),
                forall|m: int|
                    0 <= m < k ==> self@.parameters[m] == other@.parameters[m],
        decreases n - k,
        {
            if !str_eq(self.parameters[k].0.as_str(), other.parameters[k].0.as_str()) {
                assert(self@.parameters[k as int] != other@.parameters[k as int]);
                return false;
            }
            if !str_eq(self.parameters[k].1.as_str(), other.parameters[k].1.as_str()) {
                assert(self@.parameters[k as int] != other@.parameters[k as int]);
                return false;
            }
            k = k + 1;
        }
        assert(self@.parameters =~= other@.parameters);
        true
    }
}

impl vstd::std_specs::cmp::PartialEqSpecImpl for Invoke {
    open spec fn obeys_eq_spec() -> bool {
        true
    }

    open spec fn eq_spec(&self, other: &Self) -> bool {
        self@ == other@
    }
}

/// A decoded `<function_calls>` document.
#[derive(Debug, Clone)]
pub struct FunctionCalls {
    /// The single invocation the document holds.
    pub invoke: Invoke,
}

/// The view of a `FunctionCalls`.
pub struct FunctionCallsView {
    pub invoke: InvokeView,
}

impl View for FunctionCalls {
    type V = FunctionCallsView;

    open spec fn view(&self) -> FunctionCallsView {
        FunctionCallsView { invoke: self.invoke@ }
    }
}

impl PartialEq for FunctionCalls {
    fn eq(&self, other: &Self) -> (r: bool) {
        self.invoke.eq(&other.invoke)
    }
}

impl vstd::std_specs::cmp::PartialEqSpecImpl for FunctionCalls {
    open spec fn obeys_eq_spec() -> bool {
        true
    }

    open spec fn eq_spec(&self, other: &Self) -> bool {
        self@ == other@
    }
}

/// What decoding a span returns: the tool name between `<tool_name>` and
/// `</tool_name>` inside the first `<invoke>`, and the parameter pairs of
/// the `<parameters>` region with first occurrences kept, or the first
/// structural failure encountered.
pub open spec fn spec_deserialize_function_calls(x: Seq<char>) -> Result<
    InvokeView,
    FunctionCallsDecodingError,
> {
    match find_first(x, "<invoke>"@, 0) {
        None => Err(FunctionCallsDecodingError::InvokeNotFound),
        Some(inv) => match find_first(x, "<tool_name>"@, inv + "<invoke>"@.len()) {
            None => Err(FunctionCallsDecodingError::ToolNameNotFound),
            Some(t0) => {
                let name_start = t0 + "<tool_name>"@.len();
                match find_first(x, "</tool_name>"@, name_start) {
                    None => Err(FunctionCallsDecodingError::ToolNameNotFound),
                    Some(t1) => {
                        let tool_name = x.subrange(name_start, t1);
                        match find_first(x, "<parameters>"@, t1 + "</tool_name>"@.len()) {
                            None => Err(FunctionCallsDecodingError::ParametersNotFound),
                            Some(p0) => {
                                let region_start = p0 + "<parameters>"@.len();
                                match find_first(x, "</parameters>"@, region_start) {
                                    None => Err(FunctionCallsDecodingError::ParametersNotFound),
                                    Some(p1) => {
                                        let region = x.subrange(region_start, p1);
                                        match spec_parse_param_entries(region, 0) {
                                            None => Err(
                                                FunctionCallsDecodingError::MalformedParameter,
                                            ),
                                            Some(entries) => Ok(
                                                InvokeView {
                                                    tool_name,
                                                    parameters: spec_dedup_keys(entries),
                                                },
                                            ),
                                        }
                                    },
                                }
                            },
                        }
                    },
                }
            },
        },
    }
}

impl FunctionCalls {
    /// Decodes an extracted span into a structured invocation.
    pub fn deserialize(xml: &str) -> (r: Result<FunctionCalls, FunctionCallsDecodingError>)
        ensures
            match r {
                Ok(fc) => spec_deserialize_function_calls(xml@) == Ok::<
                    InvokeView,
                    FunctionCallsDecodingError,
                >(fc@.invoke),
                Err(e) => spec_deserialize_function_calls(xml@) == Err::<
                    InvokeView,
                    FunctionCallsDecodingError,
                >(e),
            },
    {
        let x = str_to_chars(xml);
        let n = x.len();
        let invoke_tag = str_to_chars("<invoke>");
        let inv = match find_pattern(&x, &invoke_tag, 0) {
            Some(i) => i,
            None => {
                return Err(FunctionCallsDecodingError::InvokeNotFound);
            },
        };
        proof {
            crate::text::lemma_find_first_characterization(x@, invoke_tag@, 0);
            assert(contains_at(x@, invoke_tag@, inv as int));
        }
        let tool_open = str_to_chars("<tool_name>");
        let t0 = match find_pattern(&x, &tool_open, inv + invoke_tag.len()) {
            Some(i) => i,
            None => {
                return Err(FunctionCallsDecodingError::ToolNameNotFound);
            },
        };
        proof {
            crate::text::lemma_find_first_characterization(
                x@,
                tool_open@,
                inv + invoke_tag@.len() as int,
            );
            assert(contains_at(x@, tool_open@, t0 as int));
        }
        let name_start = t0 + tool_open.len();
        let tool_close = str_to_chars("</tool_name>");
        let t1 = match find_pattern(&x, &tool_close, name_start) {
            Some(i) => i,
            None => {
                return Err(FunctionCallsDecodingError::ToolNameNotFound);
            },
        };
        proof {
            crate::text::lemma_find_first_characterization(x@, tool_close@, name_start as int);
            assert(contains_at(x@, tool_close@, t1 as int));
        }
        let tool_name = subrange_vec(&x, name_start, t1);
        let params_open = str_to_chars("<parameters>");
        let p0 = match find_pattern(&x, &params_open, t1 + tool_close.len()) {
            Some(i) => i,
            None => {
                return Err(FunctionCallsDecodingError::ParametersNotFound);
            },
        };
        proof {
            crate::text::lemma_find_first_characterization(
                x@,
                params_open@,
                t1 + tool_close@.len() as int,
            );
            assert(contains_at(x@, params_open@, p0 as int));
        }
        let region_start = p0 + params_open.len();
        let params_close = str_to_chars("</parameters>");
        let p1 = match find_pattern(&x, &params_close, region_start) {
            Some(i) => i,
            None => {
                return Err(FunctionCallsDecodingError::ParametersNotFound);
            },
        };
        proof {
            crate::text::lemma_find_first_characterization(x@, params_close@, region_start as int);
            assert(contains_at(x@, params_close@, p1 as int));
        }
        let region = subrange_vec(&x, region_start, p1);
        let entries = match parse_param_entries(&region) {
            Some(entries) => entries,
            None => {
                return Err(FunctionCallsDecodingError::MalformedParameter);
            },
        };
        let parameters = dedup_first_wins(&entries);
        Ok(
            FunctionCalls {
                invoke: Invoke { tool_name: chars_to_string(&tool_name), parameters },
            },
        )
    }
}

} // verus!
