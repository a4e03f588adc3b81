//! Frames and frame batches: the decoding of the provider's multi-frame
//! text bodies.
//!
//! The wire grammar: a body is a sequence of blocks separated by a blank
//! line (`"\n\n"`); each non-empty block is the fixed prefix `"data: "`
//! followed by one JSON document. Decoding is fail-fast: a block without
//! the prefix, or with an undecodable payload, fails the whole batch.

use crate::errors::ResponseError;
use crate::json::{json_get, json_of, parse_json, spec_lookup, JsonVal};
use vstd::prelude::*;

verus! {

/// One frame: a thin wrapper around one decoded JSON payload.
#[derive(Debug)]
pub struct Response {
    raw_response: JsonVal,
}

impl Response {
    /// The wrapped JSON value.
    pub closed spec fn raw(&self) -> JsonVal {
        self.raw_response
    }

    /// Wrap a decoded JSON value; no validation is performed.
    pub fn new(raw_response: JsonVal) -> (r: Self)
        ensures
            r.raw() == raw_response,
    {
        Response { raw_response }
    }

    /// Decode one frame from the text of a whole JSON document.
    pub fn from_json_text(s: &str) -> (r: Result<Response, ResponseError>)
        ensures
            match json_of(s@) {
                Some(v) => r matches Ok(resp) && resp.raw() == v,
                None => r matches Err(e) && e is InvalidJson,
            },
    {
        match parse_json(s) {
            Ok(v) => Ok(Response::new(v)),
            Err(e) => Err(e),
        }
    }

    /// Give the wrapped value up.
    pub fn into_raw(self) -> (r: JsonVal)
        ensures
            r == self.raw(),
    {
        self.raw_response
    }

    /// A view of the whole wrapped value.
    pub fn get_raw_response(&self) -> (r: &JsonVal)
        ensures
            *r == self.raw(),
    {
        &self.raw_response
    }

    /// Direct field lookup; `None` on absence.
    pub fn get(&self, key: &str) -> (r: Option<&JsonVal>)
        ensures
            match r {
                Some(x) => spec_lookup(self.raw(), key@) == Some(*x),
                None => spec_lookup(self.raw(), key@) is None,
            },
    {
        json_get(&self.raw_response, key)
    }

    /// The generated text of this frame: the string under its `result`
    /// field.
    pub fn get_result(&self) -> (r: Result<String, ResponseError>)
        ensures
            match spec_result(self.raw()) {
                Ok(s) => r matches Ok(out) && out@ == s,
                Err(e) => r matches Err(e2) && e2 == e,
            },
    {
        match json_get(&self.raw_response, "result") {
            None => Err(ResponseError::MissingField),
            Some(v) => match v {
                JsonVal::Str(s) => Ok(s.clone()),
                _ => Err(ResponseError::WrongType),
            },
        }
    }
}

/// What `get_result` yields on a frame: the string under `result`,
/// `MissingField` when the field is absent, `WrongType` when it is present
/// but not a string.
pub open spec fn spec_result(v: JsonVal) -> Result<Seq<char>, ResponseError> {
    match spec_lookup(v, "result"@) {
        None => Err(ResponseError::MissingField),
        Some(r) => match r {
            JsonVal::Str(s) => Ok(s@),
            _ => Err(ResponseError::WrongType),
        },
    }
}

/// The block prefix, `"data: "`.
pub open spec fn spec_data_prefix() -> Seq<char> {
    seq!['d', 'a', 't', 'a', ':', ' ']
}

/// Whether a block begins with the `"data: "` prefix.
pub open spec fn spec_has_prefix(p: Seq<char>) -> bool {
    p.len() >= 6 && p.take(6) == spec_data_prefix()
}

/// Splitting on the blank-line delimiter, leftmost first: `cur` is the
/// piece of the current part read so far.
pub open spec fn spec_split_rec(text: Seq<char>, cur: Seq<char>) -> Seq<Seq<char>>
    decreases text.len(),
{
    if text.len() >= 2 && text[0] == '\n' && text[1] == '\n' {
        seq![cur] + spec_split_rec(text.skip(2), Seq::empty())
    } else if text.len() == 0 {
        seq![cur]
    } else {
        spec_split_rec(text.skip(1), cur.push(text[0]))
    }
}

/// The parts of a body, split on `"\n\n"`.
pub open spec fn spec_split(text: Seq<char>) -> Seq<Seq<char>> {
    spec_split_rec(text, Seq::empty())
}

/// The outcome of decoding a whole body.
pub enum BodyParse {
    /// Every part decoded; the frames, in arrival order.
    Frames(Seq<JsonVal>),
    /// Some non-empty part lacks the prefix; the first such part.
    Malformed(Seq<char>),
    /// The first offending part had the prefix but an undecodable payload.
    BadJson,
}

/// Decoding a sequence of parts: empty parts are discarded, every other
/// part must carry the prefix and a decodable payload, and the first
/// offence fails the whole batch.
pub open spec fn spec_parse_parts(parts: Seq<Seq<char>>) -> BodyParse
    decreases parts.len(),
{
    if parts.len() == 0 {
        BodyParse::Frames(Seq::empty())
    } else {
        let p = parts[0];
        if p.len() == 0 {
            spec_parse_parts(parts.skip(1))
        } else if !spec_has_prefix(p) {
            BodyParse::Malformed(p)
        } else {
            match json_of(p.skip(6)) {
                None => BodyParse::BadJson,
                Some(v) => match spec_parse_parts(parts.skip(1)) {
                    BodyParse::Frames(fs) => BodyParse::Frames(seq![v] + fs),
                    BodyParse::Malformed(q) => BodyParse::Malformed(q),
                    BodyParse::BadJson => BodyParse::BadJson,
                },
            }
        }
    }
}

/// Decoding a whole body.
pub open spec fn spec_parse_body(text: Seq<char>) -> BodyParse {
    spec_parse_parts(spec_split(text))
}

/// An ordered batch of frames decoded from one complete body.
#[derive(Debug)]
pub struct Responses {
    responses: Vec<Response>,
}

/// Appending frames in front of a partial outcome.
pub open spec fn spec_merge(acc: Seq<JsonVal>, rest: BodyParse) -> BodyParse {
    match rest {
        BodyParse::Frames(fs) => BodyParse::Frames(acc + fs),
        BodyParse::Malformed(q) => BodyParse::Malformed(q),
        BodyParse::BadJson => BodyParse::BadJson,
    }
}

/// `get_results` over a sequence of frames, short-circuiting on the first
/// failing frame.
pub open spec fn spec_results(frames: Seq<JsonVal>) -> Result<Seq<Seq<char>>, ResponseError>
    decreases frames.len(),
{
    if frames.len() == 0 {
        Ok(Seq::empty())
    } else {
        match spec_result(frames[0]) {
            Err(e) => Err(e),
            Ok(s) => match spec_results(frames.skip(1)) {
                Ok(rest) => Ok(seq![s] + rest),
                Err(e) => Err(e),
            },
        }
    }
}

/// `get_whole_result` over a sequence of frames: the concatenation of
/// every frame's result, in order, short-circuiting on the first failing
/// frame.
pub open spec fn spec_whole(frames: Seq<JsonVal>) -> Result<Seq<char>, ResponseError>
    decreases frames.len(),
{
    if frames.len() == 0 {
        Ok(Seq::empty())
    } else {
        match spec_result(frames[0]) {
            Err(e) => Err(e),
            Ok(s) => match spec_whole(frames.skip(1)) {
                Ok(rest) => Ok(s + rest),
                Err(e) => Err(e),
            },
        }
    }
}

impl Responses {
    /// The wrapped JSON values, in arrival order.
    pub closed spec fn frames(&self) -> Seq<JsonVal> {
        self.responses@.map_values(|r: Response| r.raw())
    }

    /// Decode a complete multi-frame body. Fail-fast: a partial batch is
    /// never returned.
    #[verifier::loop_isolation(false)]
    pub fn from_text(text: String) -> (r: Result<Responses, ResponseError>)
        ensures
            match spec_parse_body(text@) {
                BodyParse::Frames(fs) => r matches Ok(b) && b.frames() == fs,
                BodyParse::Malformed(p) => r matches Err(e) && e matches
                    ResponseError::MalformedFrame(s) && s@ == p,
                BodyParse::BadJson => r matches Err(e) && e is InvalidJson,
            },
    {
        let s = text.as_str();
        let n = s.unicode_len();
        let mut acc: Vec<Response> = Vec::new();
        let mut pos: usize = 0;
        proof {
            assert(s@.skip(0) =~= s@);
        }
        loop
            invariant
                pos <= n,
                spec_parse_body(text@) == spec_merge(
                    acc@.map_values(|x: Response| x.raw()),
                    spec_parse_parts(spec_split(s@.skip(pos as int))),
                ),
            decreases n - pos,
        {
            let ghost suffix = s@.skip(pos as int);
            let ghost accf = acc@.map_values(|x: Response| x.raw());
            let (part, next_pos, last) = match find_delim(s, pos, n) {
                Some(k) => {
                    proof {
                        lemma_split_rec_first_delim(suffix, Seq::empty(), k - pos);
                        assert(suffix.take(k - pos) =~= s@.subrange(pos as int, k as int));
                        assert(suffix.skip(k - pos + 2) =~= s@.skip(k + 2 as int));
                        assert(Seq::<char>::empty() + suffix.take(k - pos) =~= suffix.take(
                            k - pos,
                        ));
                    }
                    (s.substring_char(pos, k), k + 2, false)
                },
                None => {
                    proof {
                        lemma_split_rec_no_delim(suffix, Seq::empty());
                        assert(suffix.take(suffix.len() as int) =~= s@.subrange(
                            pos as int,
                            n as int,
                        ));
                        assert(Seq::<char>::empty() + suffix =~= s@.subrange(
                            pos as int,
                            n as int,
                        ));
                    }
                    (s.substring_char(pos, n), n, true)
                },
            };
            // At this point spec_split(suffix) == seq![part@] + tail, where
            // tail is the split of the rest (empty when this was the last
            // part).
            let ghost tail: Seq<Seq<char>> = if last {
                Seq::empty()
            } else {
                spec_split(s@.skip(next_pos as int))
            };
            proof {
                assert(spec_split(suffix) == seq![part@] + tail);
                assert((seq![part@] + tail)[0] == part@);
                assert((seq![part@] + tail).skip(1) =~= tail);
                if last {
                    assert(spec_parse_parts(tail) == BodyParse::Frames(Seq::<JsonVal>::empty()));
                }
            }
            match parse_part(part) {
                Err(e) => {
                    return Err(e);
                },
                Ok(Some(resp)) => {
                    proof {
                        assert(accf.push(resp.raw()) + spec_frames_of(tail) =~= accf + (seq![
                            resp.raw(),
                        ] + spec_frames_of(tail)));
                        assert(acc@.push(resp).map_values(|x: Response| x.raw()) =~= accf.push(
                            resp.raw(),
                        ));
                    }
                    acc.push(resp);
                },
                Ok(None) => {},
            }
            if last {
                break;
            }
            pos = next_pos;
        }
        Ok(Responses { responses: acc })
    }

    /// The result string of every frame, in order; the first failing frame
    /// fails the whole call, with no partial list.
    #[verifier::loop_isolation(false)]
    pub fn get_results(&self) -> (r: Result<Vec<String>, ResponseError>)
        ensures
            match spec_results(self.frames()) {
                Ok(ss) => r matches Ok(v) && v.deep_view() == ss,
                Err(e) => r matches Err(e2) && e2 == e,
            },
    {
        let n = self.responses.len();
        let mut out: Vec<String> = Vec::new();
        let mut i: usize = 0;
        proof {
            assert(self.frames().skip(0) =~= self.frames());
            assert(out.deep_view() =~= Seq::<Seq<char>>::empty());
        }
        while i < n
            invariant
                i <= n,
                n == self.responses@.len(),
                spec_results(self.frames()) == (match spec_results(
                    self.frames().skip(i as int),
                ) {
                    Ok(rest) => Ok::<Seq<Seq<char>>, ResponseError>(out.deep_view() + rest),
                    Err(e) => Err(e),
                }),
            decreases n - i,
        {
            let ghost rest = self.frames().skip(i as int);
            proof {
                assert(rest[0] == self.frames()[i as int]);
                assert(rest.skip(1) =~= self.frames().skip(i + 1));
            }
            match self.responses[i].get_result() {
                Ok(sr) => {
                    let ghost dv = out.deep_view();
                    let ghost srv = sr@;
                    out.push(sr);
                    proof {
                        assert(out.deep_view() =~= dv.push(srv));
                        if spec_results(self.frames().skip(i + 1)) is Ok {
                            let tailr = spec_results(self.frames().skip(i + 1))->Ok_0;
                            assert(dv.push(srv) + tailr =~= dv + (seq![srv] + tailr));
                        }
                    }
                },
                Err(e) => {
                    return Err(e);
                },
            }
            i += 1;
        }
        proof {
            assert(self.frames().skip(n as int) =~= Seq::<JsonVal>::empty());
            assert(out.deep_view() + Seq::<Seq<char>>::empty() =~= out.deep_view());
        }
        Ok(out)
    }

    /// The whole generated text: every frame's result concatenated in
    /// arrival order, with no separator.
    #[verifier::loop_isolation(false)]
    pub fn get_whole_result(&self) -> (r: Result<String, ResponseError>)
        ensures
            match spec_whole(self.frames()) {
                Ok(s) => r matches Ok(out) && out@ == s,
                Err(e) => r matches Err(e2) && e2 == e,
            },
    {
        let n = self.responses.len();
        let mut out = String::new();
        let mut i: usize = 0;
        proof {
            assert(self.frames().skip(0) =~= self.frames());
        }
        while i < n
            invariant
                i <= n,
                n == self.responses@.len(),
                spec_whole(self.frames()) == (match spec_whole(self.frames().skip(i as int)) {
                    Ok(rest) => Ok::<Seq<char>, ResponseError>(out@ + rest),
                    Err(e) => Err(e),
                }),
            decreases n - i,
        {
            let ghost rest = self.frames().skip(i as int);
            proof {
                assert(rest[0] == self.frames()[i as int]);
                assert(rest.skip(1) =~= self.frames().skip(i + 1));
            }
            match self.responses[i].get_result() {
                Ok(sr) => {
                    proof {
                        if spec_whole(self.frames().skip(i + 1)) is Ok {
                            let tailr = spec_whole(self.frames().skip(i + 1))->Ok_0;
                            assert((out@ + sr@) + tailr =~= out@ + (sr@ + tailr));
                        }
                    }
                    out.append(sr.as_str());
                },
                Err(e) => {
                    return Err(e);
                },
            }
            i += 1;
        }
        proof {
            assert(self.frames().skip(n as int) =~= Seq::<JsonVal>::empty());
            assert(out@ + Seq::<char>::empty() =~= out@);
        }
        Ok(out)
    }
}

/// The frames that a sequence of parts decodes to, where it decodes.
pub open spec fn spec_frames_of(parts: Seq<Seq<char>>) -> Seq<JsonVal> {
    match spec_parse_parts(parts) {
        BodyParse::Frames(fs) => fs,
        _ => Seq::empty(),
    }
}

/// Decode one part: `None` for an empty part, a frame for a well-formed
/// one, and the batch-failing error otherwise.
fn parse_part(part: &str) -> (r: Result<Option<Response>, ResponseError>)
    ensures
        part@.len() == 0 ==> (r matches Ok(o) && o is None),
        part@.len() > 0 && !spec_has_prefix(part@) ==> (r matches Err(e) && e matches
            ResponseError::MalformedFrame(s) && s@ == part@),
        part@.len() > 0 && spec_has_prefix(part@) ==> (match json_of(part@.skip(6)) {
            Some(v) => r matches Ok(o) && o matches Some(resp) && resp.raw() == v,
            None => r matches Err(e) && e is InvalidJson,
        }),
{
    let plen = part.unicode_len();
    if plen == 0 {
        return Ok(None);
    }
    if !has_data_prefix(part, plen) {
        return Err(ResponseError::MalformedFrame(part.to_owned()));
    }
    let payload = part.substring_char(6, plen);
    proof {
        assert(payload@ =~= part@.skip(6));
    }
    match parse_json(payload) {
        Ok(v) => Ok(Some(Response::new(v))),
        Err(e) => Err(e),
    }
}

/// Whether the part begins with `"data: "`.
fn has_data_prefix(p: &str, plen: usize) -> (r: bool)
    requires
        plen == p@.len(),
    ensures
        r == spec_has_prefix(p@),
{
    if plen < 6 {
        return false;
    }
    let r = p.get_char(0) == 'd' && p.get_char(1) == 'a' && p.get_char(2) == 't' && p.get_char(3)
        == 'a' && p.get_char(4) == ':' && p.get_char(5) == ' ';
    proof {
        if r {
            assert(p@.take(6) =~= spec_data_prefix());
        } else {
            assert(p@.take(6) != spec_data_prefix());
        }
    }
    r
}

/// The position of the first `"\n\n"` at or after `from`, if any.
#[verifier::loop_isolation(false)]
fn find_delim(s: &str, from: usize, n: usize) -> (r: Option<usize>)
    requires
        n == s@.len(),
        from <= n,
    ensures
        match r {
            Some(k) => from <= k && k + 1 < n && s@[k as int] == '\n' && s@[k + 1] == '\n'
                && (forall|m: int|
                from <= m < k ==> !(#[trigger] s@[m] == '\n' && s@[m + 1] == '\n')),
            None => forall|m: int|
                from <= m && m + 1 < n ==> !(#[trigger] s@[m] == '\n' && s@[m + 1] == '\n'),
        },
{
    let mut j = from;
    while n - j > 1
        invariant
            from <= j,
            j <= n,
            forall|m: int| from <= m < j ==> !(#[trigger] s@[m] == '\n' && s@[m + 1] == '\n'),
        decreases n - j,
    {
        if s.get_char(j) == '\n' && s.get_char(j + 1) == '\n' {
            return Some(j);
        }
        j += 1;
    }
    None
}

/// Splitting begins a new part right after each delimiter: when the first
/// delimiter of `text` stands at `k`, the first part is everything before
/// it, and the rest is split on its own.
proof fn lemma_split_rec_first_delim(text: Seq<char>, cur: Seq<char>, k: int)
    requires
        0 <= k,
        k + 1 < text.len(),
        text[k] == '\n',
        text[k + 1] == '\n',
        forall|m: int| 0 <= m < k ==> !(#[trigger] text[m] == '\n' && text[m + 1] == '\n'),
    ensures
        spec_split_rec(text, cur) == seq![cur + text.take(k)] + spec_split_rec(
            text.skip(k + 2),
            Seq::empty(),
        ),
    decreases k,
{
    if k == 0 {
        assert(cur + text.take(0) =~= cur);
    } else {
        let t2 = text.skip(1);
        assert(forall|m: int| 0 <= m < k - 1 ==> !(#[trigger] t2[m] == '\n' && t2[m + 1] == '\n'));
        lemma_split_rec_first_delim(t2, cur.push(text[0]), k - 1);
        assert(t2.skip(k + 1) =~= text.skip(k + 2));
        assert(cur.push(text[0]) + t2.take(k - 1) =~= cur + text.take(k));
    }
}

/// A text without the delimiter is a single part.
proof fn lemma_split_rec_no_delim(text: Seq<char>, cur: Seq<char>)
    requires
        forall|m: int|
            0 <= m && m + 1 < text.len() ==> !(#[trigger] text[m] == '\n' && text[m + 1] == '\n'),
    ensures
        spec_split_rec(text, cur) == seq![cur + text],
    decreases text.len(),
{
    if text.len() == 0 {
        assert(cur + text =~= cur);
    } else {
        let t2 = text.skip(1);
        assert(forall|m: int|
            0 <= m && m + 1 < t2.len() ==> !(#[trigger] t2[m] == '\n' && t2[m + 1] == '\n'));
        lemma_split_rec_no_delim(t2, cur.push(text[0]));
        assert(cur.push(text[0]) + t2 =~= cur + text);
    }
}

} // verus!

verus! {

/// A payload that can stand inside a block: non-empty, not ending in a
/// newline, and free of the blank-line delimiter. Every text a JSON
/// encoder emits on one line is of this shape.
pub open spec fn spec_payload_wf(p: Seq<char>) -> bool {
    &&& p.len() > 0
    &&& p[p.len() - 1] != '\n'
    &&& forall|m: int| 0 <= m && m + 1 < p.len() ==> !(#[trigger] p[m] == '\n' && p[m + 1] == '\n')
}

/// The encoding of payloads into a body: each payload becomes the block
/// `"data: " + payload + "\n\n"`, in order.
pub open spec fn spec_encode_blocks(payloads: Seq<Seq<char>>) -> Seq<char>
    decreases payloads.len(),
{
    if payloads.len() == 0 {
        Seq::empty()
    } else {
        spec_data_prefix() + payloads[0] + seq!['\n', '\n'] + spec_encode_blocks(payloads.skip(1))
    }
}

/// Each payload with the block prefix in front, in order.
pub open spec fn spec_prefixed_parts(payloads: Seq<Seq<char>>) -> Seq<Seq<char>> {
    payloads.map_values(|p: Seq<char>| spec_data_prefix() + p)
}

/// Splitting an encoded body recovers exactly the prefixed payloads, in
/// order, plus one trailing empty part from the final delimiter.
proof fn lemma_encode_split(payloads: Seq<Seq<char>>)
    requires
        forall|i: int| 0 <= i < payloads.len() ==> spec_payload_wf(#[trigger] payloads[i]),
    ensures
        spec_split(spec_encode_blocks(payloads)) == spec_prefixed_parts(payloads) + seq![
            Seq::<char>::empty(),
        ],
    decreases payloads.len(),
{
    if payloads.len() == 0 {
        assert(spec_prefixed_parts(payloads) + seq![Seq::<char>::empty()] =~= seq![
            Seq::<char>::empty(),
        ]);
    } else {
        let p0 = payloads[0];
        let rest = payloads.skip(1);
        let text = spec_encode_blocks(payloads);
        let k = 6 + p0.len() as int;
        assert(forall|m: int| 0 <= m < 6 ==> spec_data_prefix()[m] != '\n');
        assert(text[k] == '\n');
        assert(text[k + 1] == '\n');
        assert forall|m: int| 0 <= m < k implies !(#[trigger] text[m] == '\n' && text[m + 1]
            == '\n') by {
            if m < 6 {
                assert(text[m] == spec_data_prefix()[m]);
            } else {
                assert(text[m] == p0[m - 6]);
                if m < k - 1 {
                    assert(text[m + 1] == p0[m - 5]);
                }
            }
        }
        lemma_split_rec_first_delim(text, Seq::empty(), k);
        assert(Seq::<char>::empty() + text.take(k) =~= spec_data_prefix() + p0);
        assert(text.skip(k + 2) =~= spec_encode_blocks(rest));
        assert(forall|i: int| 0 <= i < rest.len() ==> spec_payload_wf(#[trigger] rest[i]));
        lemma_encode_split(rest);
        assert(seq![spec_data_prefix() + p0] + (spec_prefixed_parts(rest) + seq![
            Seq::<char>::empty(),
        ]) =~= spec_prefixed_parts(payloads) + seq![Seq::<char>::empty()]);
    }
}

/// Parsing the parts of an encoded body yields the encoded frames, in the
/// original order.
proof fn lemma_parse_prefixed_parts(payloads: Seq<Seq<char>>, frames: Seq<JsonVal>)
    requires
        payloads.len() == frames.len(),
        forall|i: int| 0 <= i < payloads.len() ==> spec_payload_wf(#[trigger] payloads[i]),
        forall|i: int|
            0 <= i < payloads.len() ==> json_of(#[trigger] payloads[i]) == Some(frames[i]),
    ensures
        spec_parse_parts(spec_prefixed_parts(payloads) + seq![Seq::<char>::empty()])
            == BodyParse::Frames(frames),
    decreases payloads.len(),
{
    let parts = spec_prefixed_parts(payloads) + seq![Seq::<char>::empty()];
    if payloads.len() == 0 {
        assert(parts[0].len() == 0);
        assert(parts.skip(1) =~= Seq::<Seq<char>>::empty());
        assert(frames =~= Seq::<JsonVal>::empty());
        assert(spec_parse_parts(parts.skip(1)) == BodyParse::Frames(frames));
        assert(spec_parse_parts(parts) == BodyParse::Frames(frames));
    } else {
        let part0 = spec_data_prefix() + payloads[0];
        assert(parts[0] == part0);
        assert(part0.take(6) =~= spec_data_prefix());
        assert(part0.skip(6) =~= payloads[0]);
        assert(parts.skip(1) =~= spec_prefixed_parts(payloads.skip(1)) + seq![
            Seq::<char>::empty(),
        ]);
        assert(forall|i: int|
            0 <= i < payloads.skip(1).len() ==> spec_payload_wf(#[trigger] payloads.skip(1)[i]));
        assert(forall|i: int|
            0 <= i < payloads.skip(1).len() ==> json_of(#[trigger] payloads.skip(1)[i]) == Some(
                frames.skip(1)[i],
            ));
        lemma_parse_prefixed_parts(payloads.skip(1), frames.skip(1));
        assert(spec_parse_parts(parts.skip(1)) == BodyParse::Frames(frames.skip(1)));
        assert(seq![frames[0]] + frames.skip(1) =~= frames);
        assert(parts[0].len() > 0);
        assert(spec_has_prefix(parts[0]));
        assert(json_of(parts[0].skip(6)) == Some(frames[0]));
        assert(spec_parse_parts(parts) == BodyParse::Frames(frames));
    }
}

/// Round trip: encoding any frames whose payloads fit a block and parsing
/// the result yields exactly those frames, in the original order.
pub proof fn lemma_round_trip(payloads: Seq<Seq<char>>, frames: Seq<JsonVal>)
    requires
        payloads.len() == frames.len(),
        forall|i: int| 0 <= i < payloads.len() ==> spec_payload_wf(#[trigger] payloads[i]),
        forall|i: int|
            0 <= i < payloads.len() ==> json_of(#[trigger] payloads[i]) == Some(frames[i]),
    ensures
        spec_parse_body(spec_encode_blocks(payloads)) == BodyParse::Frames(frames),
{
    lemma_encode_split(payloads);
    lemma_parse_prefixed_parts(payloads, frames);
}

/// Where every frame has a result, the whole result is the concatenation
/// of the frames' results, in order, with no separator.
pub proof fn lemma_whole_is_concat(frames: Seq<JsonVal>, rs: Seq<Seq<char>>)
    requires
        spec_results(frames) == Ok::<Seq<Seq<char>>, ResponseError>(rs),
    ensures
        spec_whole(frames) == Ok::<Seq<char>, ResponseError>(rs.flatten()),
    decreases frames.len(),
{
    if frames.len() == 0 {
        assert(rs =~= Seq::<Seq<char>>::empty());
        assert(rs.flatten() =~= Seq::<char>::empty());
    } else {
        let s = spec_result(frames[0])->Ok_0;
        let rest = spec_results(frames.skip(1))->Ok_0;
        assert(rs == seq![s] + rest);
        lemma_whole_is_concat(frames.skip(1), rest);
        assert(rs.first() == s);
        assert(rs.drop_first() =~= rest);
        assert(s + rest.flatten() =~= rs.flatten());
    }
}

/// A non-empty part without the prefix, anywhere among the parts, fails
/// the whole parse: no partial batch can come out.
pub proof fn lemma_malformed_block_fails(parts: Seq<Seq<char>>, i: int)
    requires
        0 <= i < parts.len(),
        parts[i].len() > 0,
        !spec_has_prefix(parts[i]),
    ensures
        !(spec_parse_parts(parts) is Frames),
    decreases i,
{
    if i > 0 {
        let tail = parts.skip(1);
        assert(tail[i - 1] == parts[i]);
        lemma_malformed_block_fails(tail, i - 1);
    }
}

/// Encode payloads into one body, each as a `"data: " + payload + "\n\n"`
/// block, in order.
#[verifier::loop_isolation(false)]
pub fn encode_blocks(payloads: &Vec<String>) -> (r: String)
    ensures
        r@ == spec_encode_blocks(payloads.deep_view()),
{
    let n = payloads.len();
    let mut out = String::new();
    let mut i: usize = 0;
    proof {
        reveal_strlit("data: ");
        reveal_strlit("\n\n");
        assert("data: "@ =~= spec_data_prefix());
        assert("\n\n"@ =~= seq!['\n', '\n']);
        assert(payloads.deep_view().skip(0) =~= payloads.deep_view());
    }
    while i < n
        invariant
            i <= n,
            n == payloads@.len(),
            spec_encode_blocks(payloads.deep_view()) == out@ + spec_encode_blocks(
                payloads.deep_view().skip(i as int),
            ),
        decreases n - i,
    {
        let ghost pre = out@;
        let ghost tail = payloads.deep_view().skip(i as int);
        out.append("data: ");
        out.append(payloads[i].as_str());
        out.append("\n\n");
        proof {
            assert(tail[0] == payloads.deep_view()[i as int]);
            assert(payloads.deep_view()[i as int] == payloads@[i as int]@);
            assert(tail.skip(1) =~= payloads.deep_view().skip(i + 1));
            assert(out@ + spec_encode_blocks(payloads.deep_view().skip(i + 1)) =~= pre
                + spec_encode_blocks(tail));
        }
        i += 1;
    }
    proof {
        assert(payloads.deep_view().skip(n as int) =~= Seq::<Seq<char>>::empty());
        assert(out@ + Seq::<char>::empty() =~= out@);
    }
    out
}

} // verus!
