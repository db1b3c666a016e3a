//! Root paths: the path prefix parsed out of the storage URL, scoping all
//! operations performed through the store handle.
//!
//! A root path is a sequence of segments. The URL path is accepted when,
//! after stripping one leading and one trailing delimiter, every segment is
//! non-empty, is not a relative marker ("." or ".."), and holds no control
//! character — exactly the shape the underlying store accepts, so a
//! well-formed root path is always constructible downstream.

use vstd::prelude::*;

use vstd::string::StringSliceAdditionalSpecFns;
use vstd::utf8::decode_utf8;
use vstd::utf8::encode_utf8;
use vstd::utf8::encode_utf8_decode_utf8;
use vstd::utf8::valid_utf8;

use crate::error::AssemblyError;

verus! {

/// One leading delimiter removed, when present.
pub open spec fn strip_lead(s: Seq<char>) -> Seq<char> {
    if s.len() > 0 && s[0] == '/' {
        s.subrange(1, s.len() as int)
    } else {
        s
    }
}

/// One trailing delimiter removed, when present.
pub open spec fn strip_trail(s: Seq<char>) -> Seq<char> {
    if s.len() > 0 && s.last() == '/' {
        s.drop_last()
    } else {
        s
    }
}

/// The segments of `s` split on the delimiter, `cur` being the segment
/// characters already read. Empty segments are kept, to be rejected later.
pub open spec fn split_acc(s: Seq<char>, cur: Seq<char>) -> Seq<Seq<char>>
    decreases s.len(),
{
    if s.len() == 0 {
        seq![cur]
    } else if s[0] == '/' {
        seq![cur] + split_acc(s.drop_first(), Seq::empty())
    } else {
        split_acc(s.drop_first(), cur.push(s[0]))
    }
}

/// The segments of `s` split on the delimiter.
pub open spec fn split_slash(s: Seq<char>) -> Seq<Seq<char>> {
    split_acc(s, Seq::empty())
}

/// An ASCII control character.
pub open spec fn is_control(c: char) -> bool {
    (c as u32) < 32 || c as u32 == 127
}

/// A path segment the store accepts: non-empty, not a relative marker, and
/// free of delimiters and control characters.
pub open spec fn valid_segment(seg: Seq<char>) -> bool {
    seg.len() > 0 && seg != seq!['.'] && seg != seq!['.', '.'] && (forall|i: int|
        0 <= i < seg.len() ==> !is_control(#[trigger] seg[i]) && seg[i] != '/')
}

/// The root path segments a URL path yields, or `None` for a malformed one.
pub open spec fn spec_root(s: Seq<char>) -> Option<Seq<Seq<char>>> {
    if strip_lead(s).len() == 0 {
        Some(Seq::empty())
    } else {
        let segs = split_slash(strip_trail(strip_lead(s)));
        if forall|i: int| 0 <= i < segs.len() ==> valid_segment(#[trigger] segs[i]) {
            Some(segs)
        } else {
            None
        }
    }
}

/// The segments joined by the delimiter.
pub open spec fn join_slash(segs: Seq<Seq<char>>) -> Seq<char>
    decreases segs.len(),
{
    if segs.len() == 0 {
        Seq::empty()
    } else if segs.len() == 1 {
        segs[0]
    } else {
        segs[0] + seq!['/'] + join_slash(segs.drop_first())
    }
}

/// Joining one more segment appends a delimiter and the segment.
pub proof fn lemma_join_push(segs: Seq<Seq<char>>, x: Seq<char>)
    ensures
        join_slash(segs.push(x)) == if segs.len() == 0 {
            x
        } else {
            join_slash(segs) + seq!['/'] + x
        },
    decreases segs.len(),
{
    if segs.len() == 0 {
        assert(join_slash(segs.push(x)) == segs.push(x)[0]);
    } else if segs.len() == 1 {
        assert(segs.push(x).drop_first() =~= segs.drop_first().push(x));
        lemma_join_push(segs.drop_first(), x);
    } else {
        assert(segs.push(x).drop_first() =~= segs.drop_first().push(x));
        lemma_join_push(segs.drop_first(), x);
        assert(segs.push(x)[0] == segs[0]);
        assert(segs[0] + seq!['/'] + (join_slash(segs.drop_first()) + seq!['/'] + x) =~= (segs[0]
            + seq!['/'] + join_slash(segs.drop_first())) + seq!['/'] + x);
    }
}

/// The absolute path that a key relative to a root resolves to.
pub open spec fn spec_resolve(segs: Seq<Seq<char>>, key: Seq<char>) -> Seq<char> {
    if segs.len() == 0 {
        key
    } else {
        join_slash(segs) + seq!['/'] + key
    }
}

/// The path prefix parsed out of the input URL.
#[derive(Clone, Debug)]
pub struct RootPath {
    segments: Vec<String>,
}

impl View for RootPath {
    type V = Seq<Seq<char>>;

    closed spec fn view(&self) -> Seq<Seq<char>> {
        self.segments@.map_values(|s: String| s@)
    }
}

impl RootPath {
    /// Every segment is one the store accepts.
    pub open spec fn wf(&self) -> bool {
        forall|i: int| 0 <= i < self@.len() ==> valid_segment(#[trigger] self@[i])
    }

    /// The number of segments.
    pub fn segment_count(&self) -> (r: usize)
        ensures
            r == self@.len(),
    {
        self.segments.len()
    }

    /// The root path rendered with delimiters, no leading or trailing one.
    pub fn as_string(&self) -> (r: String)
        ensures
            r@ == join_slash(self@),
    {
        let mut r = String::new();
        let n = self.segments.len();
        proof {
            assert(self@.take(0) =~= Seq::<Seq<char>>::empty());
        }
        for i in 0..n
            invariant
                n == self.segments@.len(),
                r@ == join_slash(self@.take(i as int)),
        {
            if i > 0 {
                r.append("/");
                proof {
                    reveal_strlit("/");
                    assert("/"@ =~= seq!['/']);
                }
            }
            r.append(self.segments[i].as_str());
            proof {
                assert(self@.take(i + 1) =~= self@.take(i as int).push(self@[i as int]));
                lemma_join_push(self@.take(i as int), self@[i as int]);
            }
        }
        proof {
            assert(self@.take(n as int) =~= self@);
        }
        r
    }

    /// The absolute path a key relative to this root resolves to.
    pub fn resolve(&self, key: &str) -> (r: String)
        ensures
            r@ == spec_resolve(self@, key@),
    {
        let mut r = self.as_string();
        if self.segments.len() > 0 {
            r.append("/");
            proof {
                reveal_strlit("/");
                assert("/"@ =~= seq!['/']);
            }
        }
        r.append(key);
        r
    }
}

/// Accepts a path segment the store can hold.
fn check_segment(seg: &str) -> (r: bool)
    ensures
        r == valid_segment(seg@),
{
    let n = seg.unicode_len();
    if n == 0 {
        return false;
    }
    if n == 1 && seg.get_char(0) == '.' {
        proof {
            assert(seg@ =~= seq!['.']);
        }
        return false;
    }
    if n == 2 && seg.get_char(0) == '.' && seg.get_char(1) == '.' {
        proof {
            assert(seg@ =~= seq!['.', '.']);
        }
        return false;
    }
    for i in 0..n
        invariant
            n == seg@.len(),
            forall|j: int| 0 <= j < i ==> !is_control(#[trigger] seg@[j]) && seg@[j] != '/',
    {
        let c = seg.get_char(i);
        let cu = c as u32;
        if cu < 32 || cu == 127 || c == '/' {
            return false;
        }
    }
    proof {
        if seg@ == seq!['.'] {
            assert(seg@[0] == '.');
            assert(false);
        }
        if seg@ == seq!['.', '.'] {
            assert(seg@[0] == '.' && seg@[1] == '.');
            assert(false);
        }
    }
    true
}

/// Reading one more non-delimiter character extends the current segment.
proof fn lemma_split_acc_step(s: Seq<char>, i: int, cur: Seq<char>)
    requires
        0 <= i < s.len(),
    ensures
        s[i] == '/' ==> split_acc(s.skip(i), cur) == seq![cur] + split_acc(
            s.skip(i + 1),
            Seq::<char>::empty(),
        ),
        s[i] != '/' ==> split_acc(s.skip(i), cur) == split_acc(s.skip(i + 1), cur.push(s[i])),
{
    assert(s.skip(i)[0] == s[i]);
    assert(s.skip(i).drop_first() =~= s.skip(i + 1));
}

/// Splitting passes over a delimiter-free block as one segment prefix.
proof fn lemma_split_over_block(seg: Seq<char>, rest: Seq<char>, cur: Seq<char>)
    requires
        forall|i: int| 0 <= i < seg.len() ==> (#[trigger] seg[i]) != '/',
    ensures
        split_acc(seg + rest, cur) == split_acc(rest, cur + seg),
    decreases seg.len(),
{
    if seg.len() == 0 {
        assert(seg + rest =~= rest);
        assert(cur + seg =~= cur);
    } else {
        assert((seg + rest)[0] == seg[0]);
        assert((seg + rest).drop_first() =~= seg.drop_first() + rest);
        assert(cur.push(seg[0]) + seg.drop_first() =~= cur + seg);
        lemma_split_over_block(seg.drop_first(), rest, cur.push(seg[0]));
    }
}

/// A joined sequence of well-formed segments is non-empty and neither
/// starts nor ends with a delimiter.
proof fn lemma_join_shape(segs: Seq<Seq<char>>)
    requires
        segs.len() > 0,
        forall|i: int| 0 <= i < segs.len() ==> valid_segment(#[trigger] segs[i]),
    ensures
        join_slash(segs).len() > 0,
        join_slash(segs)[0] != '/',
        join_slash(segs).last() != '/',
    decreases segs.len(),
{
    if segs.len() == 1 {
        assert(join_slash(segs) == segs[0]);
        assert(segs[0][0] != '/');
        assert(segs[0].last() != '/');
    } else {
        let rest = segs.drop_first();
        assert(forall|i: int| 0 <= i < rest.len() ==> valid_segment(#[trigger] rest[i]));
        lemma_join_shape(rest);
        let j = segs[0] + seq!['/'] + join_slash(rest);
        assert(join_slash(segs) == j);
        assert(j[0] == segs[0][0]);
        assert(segs[0][0] != '/');
        assert(j.last() == join_slash(rest).last());
    }
}

/// Splitting a joined sequence of delimiter-free segments recovers them.
proof fn lemma_split_join(segs: Seq<Seq<char>>)
    requires
        segs.len() > 0,
        forall|i: int| 0 <= i < segs.len() ==> valid_segment(#[trigger] segs[i]),
    ensures
        split_slash(join_slash(segs)) == segs,
    decreases segs.len(),
{
    if segs.len() == 1 {
        assert(segs[0] =~= segs[0] + Seq::<char>::empty());
        lemma_split_over_block(segs[0], Seq::empty(), Seq::empty());
        assert(Seq::<char>::empty() + segs[0] =~= segs[0]);
        assert(split_slash(join_slash(segs)) =~= seq![segs[0]]);
        assert(seq![segs[0]] =~= segs);
    } else {
        let rest = segs.drop_first();
        assert(forall|i: int| 0 <= i < rest.len() ==> valid_segment(#[trigger] rest[i]));
        let tail = seq!['/'] + join_slash(rest);
        assert(join_slash(segs) =~= segs[0] + tail);
        lemma_split_over_block(segs[0], tail, Seq::empty());
        assert(Seq::<char>::empty() + segs[0] =~= segs[0]);
        assert(tail[0] == '/');
        assert(tail.drop_first() =~= join_slash(rest));
        lemma_split_join(rest);
        assert(split_slash(join_slash(segs)) =~= seq![segs[0]] + split_slash(join_slash(rest)));
        assert(seq![segs[0]] + rest =~= segs);
    }
}

/// Law (round trip): rendering a well-formed root path and parsing the
/// result back yields the same root path segments.
pub proof fn lemma_render_parse(segs: Seq<Seq<char>>)
    requires
        forall|i: int| 0 <= i < segs.len() ==> valid_segment(#[trigger] segs[i]),
    ensures
        spec_root(join_slash(segs)) == Some(segs),
{
    if segs.len() == 0 {
        assert(spec_root(join_slash(segs)) =~= Some(Seq::<Seq<char>>::empty()));
        assert(Some(Seq::<Seq<char>>::empty()) == Some(segs));
    } else {
        lemma_join_shape(segs);
        let j = join_slash(segs);
        assert(strip_lead(j) == j);
        assert(strip_trail(j) == j);
        lemma_split_join(segs);
    }
}

/// An ASCII hexadecimal digit byte.
pub open spec fn is_hex(b: u8) -> bool {
    (48 <= b && b <= 57) || (65 <= b && b <= 70) || (97 <= b && b <= 102)
}

/// The value of an ASCII hexadecimal digit byte (meaningful under
/// `is_hex`).
pub open spec fn hex_val(b: u8) -> u8 {
    if 48 <= b && b <= 57 {
        (b - 48) as u8
    } else if 65 <= b && b <= 70 {
        (b - 55) as u8
    } else if 97 <= b && b <= 102 {
        (b - 87) as u8
    } else {
        0
    }
}

/// Percent-escapes decoded: "%" followed by two hexadecimal digits becomes
/// that byte; every other byte, a stray "%" included, passes through.
pub open spec fn percent_decoded(bs: Seq<u8>) -> Seq<u8>
    decreases bs.len(),
{
    if bs.len() == 0 {
        Seq::empty()
    } else if bs[0] == 37 && bs.len() >= 3 && is_hex(bs[1]) && is_hex(bs[2]) {
        seq![(16 * hex_val(bs[1]) + hex_val(bs[2])) as u8] + percent_decoded(bs.skip(3))
    } else {
        seq![bs[0]] + percent_decoded(bs.skip(1))
    }
}

/// The value of one hexadecimal digit byte, if it is one.
fn hex_digit(b: u8) -> (r: Option<u8>)
    ensures
        (r is Some) == is_hex(b),
        r is Some ==> r == Some(hex_val(b)),
{
    if 48 <= b && b <= 57 {
        Some(b - 48)
    } else if 65 <= b && b <= 70 {
        Some(b - 55)
    } else if 97 <= b && b <= 102 {
        Some(b - 87)
    } else {
        None
    }
}

/// Decoding steps over one escape or one literal byte.
proof fn lemma_percent_decoded_step(bs: Seq<u8>, i: int)
    requires
        0 <= i < bs.len(),
    ensures
        (bs[i] == 37 && i + 3 <= bs.len() && is_hex(bs[i + 1]) && is_hex(bs[i + 2]))
            ==> percent_decoded(bs.skip(i)) == seq![
            (16 * hex_val(bs[i + 1]) + hex_val(bs[i + 2])) as u8,
        ] + percent_decoded(bs.skip(i + 3)),
        !(bs[i] == 37 && i + 3 <= bs.len() && is_hex(bs[i + 1]) && is_hex(bs[i + 2]))
            ==> percent_decoded(bs.skip(i)) == seq![bs[i]] + percent_decoded(bs.skip(i + 1)),
{
    assert(bs.skip(i)[0] == bs[i]);
    if i + 1 < bs.len() {
        assert(bs.skip(i)[1] == bs[i + 1]);
    }
    if i + 2 < bs.len() {
        assert(bs.skip(i)[2] == bs[i + 2]);
    }
    if i + 3 <= bs.len() {
        assert(bs.skip(i).skip(3) =~= bs.skip(i + 3));
    }
    assert(bs.skip(i).skip(1) =~= bs.skip(i + 1));
}

/// Decodes the percent-escapes of a URL path into bytes.
fn percent_decode(s: &str) -> (r: Vec<u8>)
    ensures
        r@ == percent_decoded(s.spec_bytes()),
{
    let bytes = s.as_bytes_vec();
    let n = bytes.len();
    let mut out: Vec<u8> = Vec::new();
    let mut i: usize = 0;
    proof {
        assert(bytes@.skip(0) =~= bytes@);
        assert(out@ + percent_decoded(bytes@) =~= percent_decoded(bytes@));
    }
    while i < n
        invariant
            n == bytes@.len(),
            bytes@ == s.spec_bytes(),
            i <= n,
            out@ + percent_decoded(bytes@.skip(i as int)) == percent_decoded(bytes@),
        decreases n - i,
    {
        proof {
            lemma_percent_decoded_step(bytes@, i as int);
        }
        let ghost before = out@;
        let mut step: usize = 1;
        if bytes[i] == 37 && n - i > 2 {
            if let (Some(hi), Some(lo)) = (hex_digit(bytes[i + 1]), hex_digit(bytes[i + 2])) {
                proof {
                    assert(hi <= 15 && lo <= 15);
                }
                out.push(16 * hi + lo);
                step = 3;
            } else {
                out.push(bytes[i]);
            }
        } else {
            out.push(bytes[i]);
        }
        proof {
            assert(before + (seq![out@.last()] + percent_decoded(bytes@.skip(i + step))) =~= out@
                + percent_decoded(bytes@.skip(i + step)));
        }
        i = i + step;
    }
    proof {
        assert(bytes@.skip(n as int) =~= Seq::<u8>::empty());
        assert(out@ + Seq::<u8>::empty() =~= out@);
    }
    out
}

/// Relies on String::from_utf8: the bytes read as text when they are valid
/// UTF-8, and nothing otherwise; the text's bytes are the input.
#[verifier::external_body]
fn utf8_string(v: Vec<u8>) -> (r: Option<String>)
    ensures
        match r {
            Some(d) => valid_utf8(v@) && encode_utf8(d@) == v@,
            None => !valid_utf8(v@),
        },
{
    String::from_utf8(v).ok()
}

/// The root path that a percent-encoded URL path yields: escapes decoded,
/// the bytes read as text, the segments validated. `None` when the bytes
/// do not decode to valid text or a segment is malformed.
pub open spec fn spec_url_root(bs: Seq<u8>) -> Option<Seq<Seq<char>>> {
    if valid_utf8(percent_decoded(bs)) {
        spec_root(decode_utf8(percent_decoded(bs)))
    } else {
        None
    }
}

/// The message of the error that `parse_url_root` reports, for URL paths
/// that yield no root.
pub open spec fn spec_url_error_message(bs: Seq<u8>) -> Seq<char> {
    if !valid_utf8(percent_decoded(bs)) {
        "url path percent-decodes to invalid text"@
    } else {
        "url path holds an empty, relative or control segment"@
    }
}

/// Law: resolving a valid relative key against a well-formed root extends
/// the root by exactly one segment — the resolved path is the rendering of
/// the root's segments followed by the key, and parses back to them.
pub proof fn lemma_resolve_extends_root(segs: Seq<Seq<char>>, key: Seq<char>)
    requires
        forall|i: int| 0 <= i < segs.len() ==> valid_segment(#[trigger] segs[i]),
        valid_segment(key),
    ensures
        spec_resolve(segs, key) == join_slash(segs.push(key)),
        spec_root(spec_resolve(segs, key)) == Some(segs.push(key)),
{
    lemma_join_push(segs, key);
    assert(forall|i: int| 0 <= i < segs.push(key).len() ==> valid_segment(
        #[trigger] segs.push(key)[i],
    ));
    lemma_render_parse(segs.push(key));
}

/// Parses the path portion of a storage URL into the root path, decoding
/// percent-escapes first.
pub fn parse_url_root(path: &str) -> (r: Result<RootPath, AssemblyError>)
    ensures
        match r {
            Ok(rp) => spec_url_root(path.spec_bytes()) == Some(rp@) && rp.wf(),
            Err(e) => spec_url_root(path.spec_bytes()) is None && match e {
                AssemblyError::UrlParse(m) => m@ == spec_url_error_message(path.spec_bytes()),
                _ => false,
            },
        },
{
    let decoded_bytes = percent_decode(path);
    let decoded = match utf8_string(decoded_bytes) {
        Some(d) => d,
        None => {
            return Err(
                AssemblyError::UrlParse("url path percent-decodes to invalid text".to_owned()),
            );
        },
    };
    proof {
        encode_utf8_decode_utf8(decoded@);
    }
    parse_root_path(decoded.as_str())
}

/// Parses the path portion of a storage URL into the root path.
///
/// One leading and one trailing delimiter are ignored; between them every
/// segment must be one the store accepts. A lone delimiter or an empty
/// path yields the empty root.
pub fn parse_root_path(path: &str) -> (r: Result<RootPath, AssemblyError>)
    ensures
        match r {
            Ok(rp) => spec_root(path@) == Some(rp@) && rp.wf(),
            Err(e) => spec_root(path@) is None && match e {
                AssemblyError::UrlParse(m) => m@ ==
                "url path holds an empty, relative or control segment"@,
                _ => false,
            },
        },
{
    let n = path.unicode_len();
    let start: usize = if n > 0 && path.get_char(0) == '/' {
        1
    } else {
        0
    };
    if start == n {
        let rp = RootPath { segments: Vec::new() };
        proof {
            assert(strip_lead(path@).len() == 0);
            assert(rp@ =~= Seq::<Seq<char>>::empty());
        }
        return Ok(rp);
    }
    let end: usize = if path.get_char(n - 1) == '/' {
        n - 1
    } else {
        n
    };
    let core = path.substring_char(start, end);
    proof {
        assert(strip_lead(path@) =~= path@.subrange(start as int, n as int));
        assert(strip_trail(strip_lead(path@)) =~= path@.subrange(start as int, end as int));
    }
    let m = core.unicode_len();
    let mut segments: Vec<String> = Vec::new();
    let mut seg_start: usize = 0;
    proof {
        assert(core@.skip(0) =~= core@);
        assert(core@.subrange(0, 0) =~= Seq::<char>::empty());
        assert(segments@.map_values(|s: String| s@) =~= Seq::<Seq<char>>::empty());
        assert(Seq::<Seq<char>>::empty() + split_slash(core@) =~= split_slash(core@));
    }
    for i in 0..m
        invariant
            m == core@.len(),
            seg_start <= i,
            segments@.map_values(|s: String| s@) + split_acc(
                core@.skip(i as int),
                core@.subrange(seg_start as int, i as int),
            ) =~= split_slash(core@),
    {
        let c = core.get_char(i);
        proof {
            lemma_split_acc_step(core@, i as int, core@.subrange(seg_start as int, i as int));
        }
        if c == '/' {
            let seg = core.substring_char(seg_start, i);
            let ghost before = segments@.map_values(|s: String| s@);
            segments.push(seg.to_owned());
            proof {
                assert(segments@.map_values(|s: String| s@) =~= before.push(
                    core@.subrange(seg_start as int, i as int),
                ));
                assert(before.push(core@.subrange(seg_start as int, i as int)) + split_acc(
                    core@.skip(i + 1),
                    Seq::<char>::empty(),
                ) =~= before + (seq![core@.subrange(seg_start as int, i as int)] + split_acc(
                    core@.skip(i + 1),
                    Seq::<char>::empty(),
                )));
                assert(core@.subrange(i + 1, i + 1) =~= Seq::<char>::empty());
            }
            seg_start = i + 1;
        } else {
            proof {
                assert(core@.subrange(seg_start as int, i as int).push(core@[i as int]) =~= core@
                    .subrange(seg_start as int, i + 1));
            }
        }
    }
    let seg = core.substring_char(seg_start, m);
    let ghost before = segments@.map_values(|s: String| s@);
    segments.push(seg.to_owned());
    proof {
        assert(core@.skip(m as int) =~= Seq::<char>::empty());
        assert(segments@.map_values(|s: String| s@) =~= before.push(
            core@.subrange(seg_start as int, m as int),
        ));
        assert(before.push(core@.subrange(seg_start as int, m as int)) =~= before + seq![
            core@.subrange(seg_start as int, m as int),
        ]);
        assert(segments@.map_values(|s: String| s@) =~= split_slash(core@));
    }
    let count = segments.len();
    let ghost segviews = segments@.map_values(|s: String| s@);
    for i in 0..count
        invariant
            count == segments@.len(),
            segviews == segments@.map_values(|s: String| s@),
            segviews == split_slash(strip_trail(strip_lead(path@))),
            strip_lead(path@).len() != 0,
            forall|j: int| 0 <= j < i ==> valid_segment(#[trigger] segviews[j]),
    {
        if !check_segment(segments[i].as_str()) {
            proof {
                assert(!valid_segment(segviews[i as int]));
            }
            return Err(
                AssemblyError::UrlParse(
                    "url path holds an empty, relative or control segment".to_owned(),
                ),
            );
        }
    }
    let rp = RootPath { segments };
    Ok(rp)
}

} // verus!
