//! Extraction of the tags that the proxy cares about from an HTML page.
//!
//! `parse_html` is a single left-to-right scan. It records `<script`, `<title`,
//! `<meta` and `<link` tags, skips comments, and picks out the SDK tag, the
//! data layer, the title, the canonical link and the keywords. The scan is
//! specified step by step by `scan`, a function on the page's characters.
use vstd::prelude::*;
use crate::text::{
    same_chars, push_str,
    chars_of, contains, contains_seq, ends_with, find, first_occurrence, has_prefix, has_suffix,
    lemma_first_occurrence, occurs_at, replace, replace_seq, slice_chars,
    starts_with, string_of, trim, trim_seq,
};

verus! {

/// What `parse_html` found in a page.
#[derive(Debug)]
pub struct Document {
    pub data_collection_events: String,
    pub sdk_full_tag: String,
    pub sdk_src: String,
    pub inlined_sdk: String,
    pub data_layer: String,
    pub title: String,
    pub canonical: String,
    pub keywords: String,
}

/// The contents of the JavaScript SDK files that the proxy can inline: the
/// current bundle, served as `sdk.js`, and the versioned bundle `edgee.v1.1.0.js`.
pub struct SdkBundles {
    pub latest: String,
    pub v1_1_0: String,
}

/// The state of the scan: the fields found so far, the tag being recorded and
/// the position in the page.
pub struct ScanState {
    pub sdk_full_tag: Seq<char>,
    pub sdk_src: Seq<char>,
    pub inlined_sdk: Seq<char>,
    pub data_layer: Seq<char>,
    pub title: Seq<char>,
    pub canonical: Seq<char>,
    pub keywords: Seq<char>,
    pub temp: Seq<char>,
    pub recording: bool,
    pub pos: int,
}

// ---------------------------------------------------------------------------
// Attribute values and SDK lookup
// ---------------------------------------------------------------------------

/// The value between the quotes that follow the first occurrence of `pattern`
/// (an attribute name with `="`), if both are there.
pub open spec fn attribute_value(tag: Seq<char>, pattern: Seq<char>) -> Option<Seq<char>> {
    match first_occurrence(tag, pattern) {
        None => None,
        Some(i) => {
            let rest = tag.subrange(i + pattern.len(), tag.len() as int);
            match first_occurrence(rest, seq!['"']) {
                None => None,
                Some(j) => Some(rest.subrange(0, j)),
            }
        },
    }
}

fn extract_value(tag: &[char], pattern: &[char]) -> (r: Option<Vec<char>>)
    ensures
        r matches Some(v) ==> attribute_value(tag@, pattern@) == Some(v@),
        r is None ==> attribute_value(tag@, pattern@) is None,
{
    match find(tag, pattern) {
        None => None,
        Some(start) => {
            proof {
                lemma_first_occurrence(tag@, pattern@);
                assert(occurs_at(tag@, pattern@, start as int));
            }
            let n = tag.len();
            assert(start + pattern@.len() <= n);
            let rest = slice_chars(tag, start + pattern.len(), n);
            let quote = vec!['"'];
            proof {
                assert(quote@ =~= seq!['"']);
            }
            match find(rest.as_slice(), quote.as_slice()) {
                None => None,
                Some(end_quote) => {
                    proof {
                        lemma_first_occurrence(rest@, quote@);
                    }
                    Some(slice_chars(rest.as_slice(), 0, end_quote))
                },
            }
        },
    }
}

/// The value of the `href` attribute of a tag.
pub fn extract_href_value(tag: &str) -> (r: Option<String>)
    ensures
        r matches Some(v) ==> attribute_value(tag@, "href=\""@) == Some(v@),
        r is None ==> attribute_value(tag@, "href=\""@) is None,
{
    let t = chars_of(tag);
    let p = chars_of("href=\"");
    match extract_value(t.as_slice(), p.as_slice()) {
        Some(v) => Some(string_of(&v)),
        None => None,
    }
}

/// The value of the `src` attribute of a tag.
pub fn extract_src_value(tag: &str) -> (r: Option<String>)
    ensures
        r matches Some(v) ==> attribute_value(tag@, "src=\""@) == Some(v@),
        r is None ==> attribute_value(tag@, "src=\""@) is None,
{
    let t = chars_of(tag);
    let p = chars_of("src=\"");
    match extract_value(t.as_slice(), p.as_slice()) {
        Some(v) => Some(string_of(&v)),
        None => None,
    }
}

/// The text read through `json_comments::StripComments`: its comments
/// (`/* */`, `//` and `#`) turned into spaces; `None` where the adapter
/// reports invalid data (an unterminated string or comment).
pub uninterp spec fn comments_stripped(text: Seq<char>) -> Option<Seq<char>>;

/// `json_comments::StripComments` over the text's bytes, read to the end.
#[verifier::external_body]
fn strip_comments(text: &str) -> (r: Option<String>)
    ensures
        crate::models::opt_view(r) == comments_stripped(text@),
{
    let mut out = String::new();
    let mut reader = json_comments::StripComments::new(text.as_bytes());
    match std::io::Read::read_to_string(&mut reader, &mut out) {
        Ok(_) => Some(out),
        Err(_) => None,
    }
}

/// The page's data layer without its comments, ready to be read as JSON;
/// `None` where the page has none or its comments cannot be stripped.
pub fn data_layer_text(document: &Document) -> (r: Option<String>)
    ensures
        document.data_layer@.len() == 0 ==> r is None,
        document.data_layer@.len() > 0 ==> crate::models::opt_view(r) == comments_stripped(
            document.data_layer@,
        ),
{
    if document.data_layer.as_str().is_empty() {
        None
    } else {
        strip_comments(document.data_layer.as_str())
    }
}

/// The value of the `content` attribute of a tag.
pub fn extract_content_value(tag: &str) -> (r: Option<String>)
    ensures
        r matches Some(v) ==> attribute_value(tag@, "content=\""@) == Some(v@),
        r is None ==> attribute_value(tag@, "content=\""@) is None,
{
    let t = chars_of(tag);
    let p = chars_of("content=\"");
    match extract_value(t.as_slice(), p.as_slice()) {
        Some(v) => Some(string_of(&v)),
        None => None,
    }
}

/// The bundle that an SDK URL names: a URL ending in `sdk.js` names the
/// current bundle; one whose version, between its last `v` and the closing
/// `.js`, is `1.1.0` (that is, ending in `v1.1.0.js`) names that version;
/// anything else names none.
pub open spec fn sdk_for_url(url: Seq<char>, latest: Seq<char>, v1_1_0: Seq<char>) -> Option<
    Seq<char>,
> {
    if ends_with(url, "sdk.js"@) {
        Some(trim_seq(latest))
    } else if ends_with(url, "v1.1.0.js"@) {
        Some(trim_seq(v1_1_0))
    } else {
        None
    }
}

/// The SDK bundle named by `url`, trimmed, or an error when the URL names no
/// bundle that the proxy knows.
pub fn sdk_bundle(url: &str, bundles: &SdkBundles) -> (r: Result<String, &'static str>)
    ensures
        match sdk_for_url(url@, bundles.latest@, bundles.v1_1_0@) {
            Some(content) => r matches Ok(v) && v@ == content,
            None => r matches Err(e) && e@ == "Failed to read the JS SDK file"@,
        },
{
    let u = chars_of(url);
    let suffix = chars_of("sdk.js");
    if has_suffix(u.as_slice(), suffix.as_slice()) {
        let l = chars_of(bundles.latest.as_str());
        return Ok(string_of(&trim(l.as_slice())));
    }
    let versioned = chars_of("v1.1.0.js");
    if has_suffix(u.as_slice(), versioned.as_slice()) {
        let v = chars_of(bundles.v1_1_0.as_str());
        Ok(string_of(&trim(v.as_slice())))
    } else {
        Err("Failed to read the JS SDK file")
    }
}

/// The SDK named by `url`, wrapped in a `<script>` tag, or an error when the
/// URL names no bundle that the proxy knows.
pub fn get_sdk_from_url(url: &str, bundles: &SdkBundles) -> (r: Result<String, &'static str>)
    ensures
        match sdk_for_url(url@, bundles.latest@, bundles.v1_1_0@) {
            Some(content) => r matches Ok(v) && v@ == "<script>"@ + content + "</script>"@,
            None => r matches Err(e) && e@ == "Failed to read the JS SDK file"@,
        },
{
    match sdk_bundle(url, bundles) {
        Ok(content) => {
            let mut v = String::new();
            push_str(&mut v, "<script>");
            push_str(&mut v, content.as_str());
            push_str(&mut v, "</script>");
            Ok(v)
        },
        Err(e) => Err(e),
    }
}


// ---------------------------------------------------------------------------
// The scan
// ---------------------------------------------------------------------------

/// Appends characters of `h` from `pos` on to `temp` until `temp` ends with
/// `end` or the page ends: the new position and the new `temp`.
pub open spec fn consume_until(h: Seq<char>, pos: int, temp: Seq<char>, end: Seq<char>) -> (
    int,
    Seq<char>,
)
    decreases h.len() - pos,
{
    if pos < 0 || pos >= h.len() {
        (pos, temp)
    } else {
        let t = temp.push(h[pos]);
        if ends_with(t, end) {
            (pos + 1, t)
        } else {
            consume_until(h, pos + 1, t, end)
        }
    }
}

pub open spec fn recorded_tag_at(h: Seq<char>, pos: int) -> bool {
    let rest = h.subrange(pos, h.len() as int);
    starts_with(rest, "script"@) || starts_with(rest, "title"@) || starts_with(rest, "meta"@)
        || starts_with(rest, "link"@)
}

/// What the scan does with a `<!`: the position after it and the recorded text.
pub open spec fn skip_comment(h: Seq<char>, pos: int, temp: Seq<char>) -> (int, Seq<char>) {
    if pos < h.len() && h[pos] == '-' {
        if pos + 1 < h.len() && h[pos + 1] == '-' {
            let r = consume_until(h, pos + 2, temp, "-->"@);
            (r.0, seq![])
        } else {
            (pos + 1, temp)
        }
    } else {
        (pos, temp)
    }
}

/// What the scan does at the `>` that closes a recorded tag, once `>` is
/// appended to `st.temp`.
pub open spec fn close_tag(h: Seq<char>, st: ScanState, b: SdkBundles) -> ScanState {
    let temp = st.temp;
    let done = ScanState { temp: seq![], recording: false, ..st };
    if contains_seq(temp, "__EDGEE_SDK__"@) {
        if ends_with(temp, "/>"@) {
            ScanState { sdk_full_tag: temp, ..done }
        } else {
            let r = consume_until(h, st.pos, temp, "script>"@);
            let full = r.1;
            let src = match attribute_value(full, "src=\""@) {
                Some(v) => v,
                None => seq![],
            };
            let inline = !contains_seq(full, "data-inline=\"false\""@);
            let inlined = if inline && src.len() > 0 {
                match sdk_for_url(src, b.latest@, b.v1_1_0@) {
                    Some(c) => c,
                    None => st.inlined_sdk,
                }
            } else {
                st.inlined_sdk
            };
            ScanState {
                sdk_full_tag: full,
                sdk_src: src,
                inlined_sdk: inlined,
                pos: r.0,
                ..done
            }
        }
    } else if contains_seq(temp, "__EDGEE_DATA_LAYER__"@) {
        let r = consume_until(h, st.pos, seq![], "script>"@);
        ScanState { data_layer: replace_seq(r.1, "</script>"@, seq![]), pos: r.0, ..done }
    } else if temp == "<title>"@ {
        let r = consume_until(h, st.pos, temp, "title>"@);
        ScanState {
            title: replace_seq(replace_seq(r.1, "</title>"@, seq![]), "<title>"@, seq![]),
            pos: r.0,
            ..done
        }
    } else if contains_seq(temp, "rel=\"canonical\""@) {
        match attribute_value(temp, "href=\""@) {
            Some(v) => ScanState { canonical: v, ..done },
            None => done,
        }
    } else if contains_seq(temp, "name=\"keywords\""@) {
        match attribute_value(temp, "content=\""@) {
            Some(v) => ScanState { keywords: v, ..done },
            None => done,
        }
    } else {
        done
    }
}

/// One step of the scan: reads the character at `st.pos` and what it asks for.
pub open spec fn step(h: Seq<char>, st: ScanState, b: SdkBundles) -> ScanState {
    let c = h[st.pos];
    let pos = st.pos + 1;
    if c == '<' && pos < h.len() && h[pos] == '!' {
        let r = skip_comment(h, pos + 1, st.temp);
        ScanState { pos: r.0, temp: r.1, ..st }
    } else if c == '<' {
        let start = !st.recording && recorded_tag_at(h, pos);
        let base = if start {
            seq![]
        } else {
            st.temp
        };
        ScanState { pos: pos, temp: base.push('<'), recording: st.recording || start, ..st }
    } else if c == '>' && st.recording {
        close_tag(h, ScanState { pos: pos, temp: st.temp.push('>'), ..st }, b)
    } else if st.recording {
        ScanState { pos: pos, temp: st.temp.push(c), ..st }
    } else {
        ScanState { pos: pos, ..st }
    }
}

/// The scan from state `st` to the end of the page.
pub open spec fn scan(h: Seq<char>, st: ScanState, b: SdkBundles) -> ScanState
    decreases h.len() - st.pos,
{
    if st.pos < 0 || st.pos >= h.len() {
        st
    } else {
        proof {
            lemma_step_advances(h, st, b);
        }
        scan(h, step(h, st, b), b)
    }
}

pub open spec fn initial_state() -> ScanState {
    ScanState {
        sdk_full_tag: seq![],
        sdk_src: seq![],
        inlined_sdk: seq![],
        data_layer: seq![],
        title: seq![],
        canonical: seq![],
        keywords: seq![],
        temp: seq![],
        recording: false,
        pos: 0,
    }
}

pub proof fn lemma_consume_until(h: Seq<char>, pos: int, temp: Seq<char>, end: Seq<char>)
    requires
        0 <= pos <= h.len(),
    ensures
        pos <= consume_until(h, pos, temp, end).0 <= h.len(),
    decreases h.len() - pos,
{
    if pos < h.len() {
        let t = temp.push(h[pos]);
        if !ends_with(t, end) {
            lemma_consume_until(h, pos + 1, t, end);
        }
    }
}

pub proof fn lemma_step_advances(h: Seq<char>, st: ScanState, b: SdkBundles)
    requires
        0 <= st.pos < h.len(),
    ensures
        st.pos < step(h, st, b).pos <= h.len(),
{
    let pos = st.pos + 1;
    let c = h[st.pos];
    if c == '<' && pos < h.len() && h[pos] == '!' {
        if pos + 1 < h.len() && h[pos + 1] == '-' {
            if pos + 2 < h.len() && h[pos + 2] == '-' {
                lemma_consume_until(h, pos + 3, st.temp, "-->"@);
            }
        }
    } else if c == '>' && st.recording {
        lemma_consume_until(h, pos, st.temp.push('>'), "script>"@);
        lemma_consume_until(h, pos, seq![], "script>"@);
        lemma_consume_until(h, pos, st.temp.push('>'), "title>"@);
    }
}

/// Appends characters from `pos` on until `temp` ends with `end`.
fn consume_until_exec(h: &Vec<char>, pos: usize, temp: &mut Vec<char>, end: &Vec<char>) -> (r:
    usize)
    requires
        pos <= h@.len(),
    ensures
        (r as int, final(temp)@) == consume_until(h@, pos as int, old(temp)@, end@),
        pos <= r <= h@.len(),
    decreases h@.len() - pos,
{
    proof {
        lemma_consume_until(h@, pos as int, old(temp)@, end@);
    }
    if pos >= h.len() {
        return pos;
    }
    temp.push(h[pos]);
    if has_suffix(temp.as_slice(), end.as_slice()) {
        pos + 1
    } else {
        consume_until_exec(h, pos + 1, temp, end)
    }
}

/// The fields of a `Document` as character sequences.
pub open spec fn document_matches(d: Document, st: ScanState) -> bool {
    &&& d.data_collection_events@ == Seq::<char>::empty()
    &&& d.sdk_full_tag@ == st.sdk_full_tag
    &&& d.sdk_src@ == st.sdk_src
    &&& d.inlined_sdk@ == st.inlined_sdk
    &&& d.data_layer@ == st.data_layer
    &&& d.title@ == st.title
    &&& d.canonical@ == st.canonical
    &&& d.keywords@ == st.keywords
}

struct Fields {
    sdk_full_tag: Vec<char>,
    sdk_src: Vec<char>,
    inlined_sdk: Vec<char>,
    data_layer: Vec<char>,
    title: Vec<char>,
    canonical: Vec<char>,
    keywords: Vec<char>,
    temp: Vec<char>,
    recording: bool,
}

spec fn fields_state(f: Fields, pos: int) -> ScanState {
    ScanState {
        sdk_full_tag: f.sdk_full_tag@,
        sdk_src: f.sdk_src@,
        inlined_sdk: f.inlined_sdk@,
        data_layer: f.data_layer@,
        title: f.title@,
        canonical: f.canonical@,
        keywords: f.keywords@,
        temp: f.temp@,
        recording: f.recording,
        pos: pos,
    }
}

fn tag_starts_at(h: &Vec<char>, pos: usize) -> (r: bool)
    requires
        pos <= h@.len(),
    ensures
        r == recorded_tag_at(h@, pos as int),
{
    let rest = slice_chars(h.as_slice(), pos, h.len());
    let script = chars_of("script");
    let title = chars_of("title");
    let meta = chars_of("meta");
    let link = chars_of("link");
    has_prefix(rest.as_slice(), script.as_slice()) || has_prefix(rest.as_slice(), title.as_slice())
        || has_prefix(rest.as_slice(), meta.as_slice()) || has_prefix(
        rest.as_slice(),
        link.as_slice(),
    )
}

/// Handles the `>` that closes a recorded tag; `f.temp` already ends with it.
fn close_tag_exec(h: &Vec<char>, f: &mut Fields, pos: usize, b: &SdkBundles) -> (r: usize)
    requires
        pos <= h@.len(),
    ensures
        fields_state(*final(f), r as int) == close_tag(h@, fields_state(*old(f), pos as int), *b),
        pos <= r <= h@.len(),
{
    let sdk_marker = chars_of("__EDGEE_SDK__");
    let layer_marker = chars_of("__EDGEE_DATA_LAYER__");
    let title_tag = chars_of("<title>");
    let canonical_marker = chars_of("rel=\"canonical\"");
    let keywords_marker = chars_of("name=\"keywords\"");
    let mut new_pos = pos;
    if contains(f.temp.as_slice(), sdk_marker.as_slice()) {
        let self_closing = chars_of("/>");
        if has_suffix(f.temp.as_slice(), self_closing.as_slice()) {
            f.sdk_full_tag = f.temp.clone();
        } else {
            let end = chars_of("script>");
            new_pos = consume_until_exec(h, pos, &mut f.temp, &end);
            let src_pattern = chars_of("src=\"");
            let src = match extract_value(f.temp.as_slice(), src_pattern.as_slice()) {
                Some(v) => v,
                None => Vec::new(),
            };
            let no_inline = chars_of("data-inline=\"false\"");
            let inline = !contains(f.temp.as_slice(), no_inline.as_slice());
            if inline && src.len() > 0 {
                let url = string_of(&src);
                match sdk_bundle(url.as_str(), b) {
                    Ok(content) => {
                        f.inlined_sdk = chars_of(content.as_str());
                    },
                    Err(_) => {},
                }
            }
            f.sdk_src = src;
            f.sdk_full_tag = f.temp.clone();
        }
    } else if contains(f.temp.as_slice(), layer_marker.as_slice()) {
        let mut layer: Vec<char> = Vec::new();
        let end = chars_of("script>");
        new_pos = consume_until_exec(h, pos, &mut layer, &end);
        let closing = chars_of("</script>");
        let nothing: Vec<char> = Vec::new();
        f.data_layer = replace(layer.as_slice(), closing.as_slice(), nothing.as_slice());
    } else if same_chars(&f.temp, &title_tag) {
        let end = chars_of("title>");
        new_pos = consume_until_exec(h, pos, &mut f.temp, &end);
        let closing = chars_of("</title>");
        let nothing: Vec<char> = Vec::new();
        let t1 = replace(f.temp.as_slice(), closing.as_slice(), nothing.as_slice());
        f.title = replace(t1.as_slice(), title_tag.as_slice(), nothing.as_slice());
    } else if contains(f.temp.as_slice(), canonical_marker.as_slice()) {
        let href = chars_of("href=\"");
        match extract_value(f.temp.as_slice(), href.as_slice()) {
            Some(v) => {
                f.canonical = v;
            },
            None => {},
        }
    } else if contains(f.temp.as_slice(), keywords_marker.as_slice()) {
        let content = chars_of("content=\"");
        match extract_value(f.temp.as_slice(), content.as_slice()) {
            Some(v) => {
                f.keywords = v;
            },
            None => {},
        }
    }
    f.recording = false;
    f.temp = Vec::new();
    new_pos
}

/// Parses an HTML page and extracts the SDK tag (and the SDK it names, inlined
/// unless the tag says `data-inline="false"`), the data layer, the title, the
/// canonical link and the keywords. `data_collection_events` is left empty.
pub fn parse_html(html: &str, bundles: &SdkBundles) -> (r: Document)
    ensures
        document_matches(r, scan(html@, initial_state(), *bundles)),
{
    let h = chars_of(html);
    let mut f = Fields {
        sdk_full_tag: Vec::new(),
        sdk_src: Vec::new(),
        inlined_sdk: Vec::new(),
        data_layer: Vec::new(),
        title: Vec::new(),
        canonical: Vec::new(),
        keywords: Vec::new(),
        temp: Vec::new(),
        recording: false,
    };
    let mut pos: usize = 0;
    proof {
        assert(fields_state(f, 0) == initial_state());
    }
    while pos < h.len()
        invariant
            h@ == html@,
            pos <= h@.len(),
            scan(h@, initial_state(), *bundles) == scan(h@, fields_state(f, pos as int), *bundles),
        decreases h@.len() - pos,
    {
        let ghost st = fields_state(f, pos as int);
        proof {
            lemma_step_advances(h@, st, *bundles);
        }
        let c = h[pos];
        pos = pos + 1;
        if c == '<' && pos < h.len() && h[pos] == '!' {
            pos = pos + 1;
            if pos < h.len() && h[pos] == '-' {
                if pos + 1 < h.len() && h[pos + 1] == '-' {
                    let end = chars_of("-->");
                    pos = consume_until_exec(&h, pos + 2, &mut f.temp, &end);
                    f.temp = Vec::new();
                } else {
                    pos = pos + 1;
                }
            }
        } else if c == '<' {
            if !f.recording && tag_starts_at(&h, pos) {
                f.recording = true;
                f.temp = Vec::new();
            }
            f.temp.push('<');
        } else if c == '>' && f.recording {
            f.temp.push('>');
            pos = close_tag_exec(&h, &mut f, pos, bundles);
        } else if f.recording {
            f.temp.push(c);
        }
        proof {
            assert(fields_state(f, pos as int) == step(h@, st, *bundles));
        }
    }
    Document {
        data_collection_events: String::new(),
        sdk_full_tag: string_of(&f.sdk_full_tag),
        sdk_src: string_of(&f.sdk_src),
        inlined_sdk: string_of(&f.inlined_sdk),
        data_layer: string_of(&f.data_layer),
        title: string_of(&f.title),
        canonical: string_of(&f.canonical),
        keywords: string_of(&f.keywords),
    }
}

} // verus!
