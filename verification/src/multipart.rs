//! A verified decoder for `multipart/form-data` request bodies.
//!
//! The body must open with the dash-boundary `--<boundary>`.  Each part then
//! starts with `\r\n`, carries a header block closed by an empty line, and
//! its payload runs up to the next `\r\n--<boundary>`.  Two dashes after a
//! boundary close the body; anything after them is ignored.  A part's header
//! block must declare a non-empty printable-ASCII filename as
//! `filename="..."`; a body that deviates from this grammar in any way is
//! rejected as a malformed upload.

use crate::errors::UploadError;
use vstd::prelude::*;

verus! {

/// One named file segment decoded from a multipart body.
#[derive(Debug)]
pub struct Part {
    /// The client-declared filename: non-empty printable ASCII bytes.
    pub filename: Vec<u8>,
    /// The part's payload bytes, exactly as they appeared on the wire.
    pub data: Vec<u8>,
}

impl View for Part {
    type V = (Seq<u8>, Seq<u8>);

    open spec fn view(&self) -> (Seq<u8>, Seq<u8>) {
        (self.filename@, self.data@)
    }
}

/// Every byte is printable ASCII.
pub open spec fn printable(s: Seq<u8>) -> bool {
    forall|k: int| 0 <= k < s.len() ==> 32 <= #[trigger] s[k] <= 126
}

impl Part {
    pub open spec fn wf(self) -> bool {
        self.filename@.len() >= 1 && printable(self.filename@)
    }
}

/// The filenames and payloads of a sequence of parts.
pub open spec fn parts_view(v: Seq<Part>) -> Seq<(Seq<u8>, Seq<u8>)> {
    v.map_values(|p: Part| p@)
}

/// `pat` occurs in `body` starting at index `i`.
pub open spec fn match_at(body: Seq<u8>, i: int, pat: Seq<u8>) -> bool {
    0 <= i && i + pat.len() <= body.len() && body.subrange(i, i + pat.len()) == pat
}

/// The first index at or after `i` where `pat` occurs in `body`.
pub open spec fn find_from(body: Seq<u8>, i: int, pat: Seq<u8>) -> Option<int>
    decreases body.len() - i,
{
    if i < 0 || pat.len() < 1 || i + pat.len() > body.len() {
        None
    } else if match_at(body, i, pat) {
        Some(i)
    } else {
        find_from(body, i + 1, pat)
    }
}

proof fn lemma_find_props(body: Seq<u8>, i: int, pat: Seq<u8>)
    requires
        0 <= i,
        pat.len() >= 1,
    ensures
        match find_from(body, i, pat) {
            Some(j) => i <= j && j + pat.len() <= body.len() && match_at(body, j, pat),
            None => true,
        },
    decreases body.len() - i,
{
    if i + pat.len() > body.len() {
    } else if match_at(body, i, pat) {
    } else {
        lemma_find_props(body, i + 1, pat);
    }
}

proof fn lemma_find_skip(body: Seq<u8>, i: int, j: int, pat: Seq<u8>)
    requires
        0 <= i <= j,
        pat.len() >= 1,
        forall|k: int| i <= k < j ==> !match_at(body, k, pat),
    ensures
        find_from(body, i, pat) == find_from(body, j, pat),
    decreases j - i,
{
    if i < j {
        if i + pat.len() > body.len() {
            assert(j + pat.len() > body.len());
        } else {
            lemma_find_skip(body, i + 1, j, pat);
        }
    }
}

/// `pat` occurs in `body` at exactly the index `i`.
fn eq_at(body: &Vec<u8>, i: usize, pat: &Vec<u8>) -> (r: bool)
    requires
        i + pat.len() <= body.len(),
    ensures
        r == match_at(body@, i as int, pat@),
{
    let mut j: usize = 0;
    while j < pat.len()
        invariant
            j <= pat.len(),
            i + pat.len() <= body.len(),
            forall|k: int| 0 <= k < j ==> body@[i + k] == pat@[k],
        decreases pat.len() - j,
    {
        if body[i + j] != pat[j] {
            proof {
                assert(body@.subrange(i as int, i + pat.len())[j as int] != pat@[j as int]);
            }
            return false;
        }
        j = j + 1;
    }
    proof {
        assert(body@.subrange(i as int, i + pat.len()) =~= pat@);
    }
    true
}

/// The first occurrence of `pat` in `body` at or after `from`.
fn find(body: &Vec<u8>, from: usize, pat: &Vec<u8>) -> (r: Option<usize>)
    requires
        from <= body.len(),
        pat.len() >= 1,
    ensures
        match r {
            Some(j) => find_from(body@, from as int, pat@) == Some(j as int),
            None => find_from(body@, from as int, pat@) is None,
        },
{
    if pat.len() > body.len() - from {
        proof {
            lemma_find_skip(body@, from as int, body@.len() as int, pat@);
        }
        return None;
    }
    let last: usize = body.len() - pat.len();
    let mut i: usize = from;
    while i <= last
        invariant
            from <= i,
            i <= last + 1,
            last + pat.len() == body.len(),
            pat.len() >= 1,
            forall|k: int| from <= k < i ==> !match_at(body@, k, pat@),
        decreases last + 1 - i,
    {
        if eq_at(body, i, pat) {
            proof {
                lemma_find_skip(body@, from as int, i as int, pat@);
            }
            return Some(i);
        }
        i = i + 1;
    }
    proof {
        lemma_find_skip(body@, from as int, i as int, pat@);
    }
    None
}

/// Every byte of `v` is printable ASCII.
fn all_printable(v: &Vec<u8>) -> (r: bool)
    ensures
        r == printable(v@),
{
    let mut k: usize = 0;
    while k < v.len()
        invariant
            k <= v.len(),
            forall|t: int| 0 <= t < k ==> 32 <= #[trigger] v@[t] <= 126,
        decreases v.len() - k,
    {
        let b = v[k];
        if b < 32 || b > 126 {
            proof {
                assert(v@[k as int] < 32 || v@[k as int] > 126);
            }
            return false;
        }
        k = k + 1;
    }
    true
}

/// A copy of `body[from..to]`.
fn copy_range(body: &Vec<u8>, from: usize, to: usize) -> (r: Vec<u8>)
    requires
        from <= to <= body.len(),
    ensures
        r@ == body@.subrange(from as int, to as int),
{
    let mut out: Vec<u8> = Vec::new();
    let mut i: usize = from;
    while i < to
        invariant
            from <= i <= to <= body.len(),
            out@ == body@.subrange(from as int, i as int),
        decreases to - i,
    {
        out.push(body[i]);
        proof {
            assert(body@.subrange(from as int, i + 1 as int) =~= body@.subrange(
                from as int,
                i as int,
            ).push(body@[i as int]));
        }
        i = i + 1;
    }
    out
}

/// The bytes of `filename="`.
pub open spec fn filename_pat() -> Seq<u8> {
    seq![102u8, 105u8, 108u8, 101u8, 110u8, 97u8, 109u8, 101u8, 61u8, 34u8]
}

/// The header line break `\r\n`.
pub open spec fn crlf() -> Seq<u8> {
    seq![13u8, 10u8]
}

/// The empty line `\r\n\r\n` that closes a part's header block.
pub open spec fn double_crlf() -> Seq<u8> {
    seq![13u8, 10u8, 13u8, 10u8]
}

/// The filename declared in a part's header block: the bytes between
/// `filename="` and the next quote, required non-empty and printable.
pub open spec fn spec_filename(headers: Seq<u8>) -> Option<Seq<u8>> {
    match find_from(headers, 0, filename_pat()) {
        None => None,
        Some(p) => match find_from(headers, p + 10, seq![34u8]) {
            None => None,
            Some(e) => {
                let name = headers.subrange(p + 10, e);
                if name.len() >= 1 && printable(name) {
                    Some(name)
                } else {
                    None
                }
            },
        },
    }
}

fn filename_of_headers(headers: &Vec<u8>) -> (r: Option<Vec<u8>>)
    ensures
        match spec_filename(headers@) {
            Some(n) => r is Some && r.unwrap()@ == n,
            None => r is None,
        },
{
    let pat: Vec<u8> = vec![102u8, 105u8, 108u8, 101u8, 110u8, 97u8, 109u8, 101u8, 61u8, 34u8];
    proof {
        assert(pat@ =~= filename_pat());
    }
    match find(headers, 0, &pat) {
        None => None,
        Some(p) => {
            proof {
                lemma_find_props(headers@, 0, filename_pat());
                assert(filename_pat().len() == 10);
                assert(p + 10 <= headers@.len());
            }
            let hlen: usize = headers.len();
            proof {
                assert(p + 10 <= hlen);
            }
            let quote: Vec<u8> = vec![34u8];
            proof {
                assert(quote@ =~= seq![34u8]);
            }
            match find(headers, p + 10, &quote) {
                None => None,
                Some(e) => {
                    proof {
                        lemma_find_props(headers@, p + 10, seq![34u8]);
                    }
                    let name = copy_range(headers, p + 10, e);
                    if name.len() == 0 {
                        return None;
                    }
                    if !all_printable(&name) {
                        return None;
                    }
                    Some(name)
                },
            }
        },
    }
}

/// The parts encoded in `body` from position `i` on, where `i` sits just
/// after a dash-boundary; `None` when the remainder deviates from the
/// grammar.
pub open spec fn spec_parse_from(body: Seq<u8>, delim: Seq<u8>, i: int) -> Option<
    Seq<(Seq<u8>, Seq<u8>)>,
>
    decreases body.len() - i,
    via spec_parse_from_decreases
{
    if 0 <= i && i + 2 <= body.len() && body[i] == 45u8 && body[i + 1] == 45u8 {
        Some(Seq::empty())
    } else if 0 <= i && i + 2 <= body.len() && body[i] == 13u8 && body[i + 1] == 10u8 {
        match find_from(body, i + 2, double_crlf()) {
            None => None,
            Some(he) => match spec_filename(body.subrange(i + 2, he)) {
                None => None,
                Some(name) => match find_from(body, he + 4, crlf() + delim) {
                    None => None,
                    Some(pe) => match spec_parse_from(body, delim, pe + 2 + delim.len()) {
                        None => None,
                        Some(rest) => Some(
                            seq![(name, body.subrange(he + 4, pe))] + rest,
                        ),
                    },
                },
            },
        }
    } else {
        None
    }
}

#[via_fn]
proof fn spec_parse_from_decreases(body: Seq<u8>, delim: Seq<u8>, i: int) {
    if 0 <= i && i + 2 <= body.len() && body[i] == 45u8 && body[i + 1] == 45u8 {
    } else if 0 <= i && i + 2 <= body.len() && body[i] == 13u8 && body[i + 1] == 10u8 {
        lemma_find_props(body, i + 2, double_crlf());
        match find_from(body, i + 2, double_crlf()) {
            None => {},
            Some(he) => {
                lemma_find_props(body, he + 4, crlf() + delim);
            },
        }
    }
}

/// Decodes the parts that follow position `i` in `body`.
fn parse_from(body: &Vec<u8>, delim: &Vec<u8>, i: usize) -> (r: Result<Vec<Part>, UploadError>)
    requires
        i <= body.len(),
        delim.len() >= 2,
    ensures
        match spec_parse_from(body@, delim@, i as int) {
            Some(ps) => r is Ok && parts_view(r.unwrap()@) == ps && forall|k: int|
                0 <= k < r.unwrap()@.len() ==> (#[trigger] r.unwrap()@[k]).wf()
                    && r.unwrap()@[k].data@.len() <= body@.len(),
            None => r == Result::<Vec<Part>, UploadError>::Err(UploadError::MalformedUpload),
        },
    decreases body.len() - i,
{
    if body.len() - i >= 2 && body[i] == 45 && body[i + 1] == 45 {
        let parts: Vec<Part> = Vec::new();
        proof {
            assert(parts_view(parts@) =~= Seq::<(Seq<u8>, Seq<u8>)>::empty());
        }
        Ok(parts)
    } else if body.len() - i >= 2 && body[i] == 13 && body[i + 1] == 10 {
        let hs = i + 2;
        let dc: Vec<u8> = vec![13u8, 10u8, 13u8, 10u8];
        proof {
            assert(dc@ =~= double_crlf());
        }
        match find(body, hs, &dc) {
            None => Err(UploadError::MalformedUpload),
            Some(he) => {
                proof {
                    lemma_find_props(body@, hs as int, double_crlf());
                }
                let headers = copy_range(body, hs, he);
                match filename_of_headers(&headers) {
                    None => Err(UploadError::MalformedUpload),
                    Some(name) => {
                        let ps = he + 4;
                        let mut pat: Vec<u8> = vec![13u8, 10u8];
                        let mut t: usize = 0;
                        while t < delim.len()
                            invariant
                                t <= delim.len(),
                                pat@ == crlf() + delim@.take(t as int),
                            decreases delim.len() - t,
                        {
                            pat.push(delim[t]);
                            proof {
                                assert(crlf() + delim@.take(t + 1 as int) =~= (crlf()
                                    + delim@.take(t as int)).push(delim@[t as int]));
                            }
                            t = t + 1;
                        }
                        proof {
                            assert(delim@.take(delim@.len() as int) =~= delim@);
                        }
                        match find(body, ps, &pat) {
                            None => Err(UploadError::MalformedUpload),
                            Some(pe) => {
                                proof {
                                    lemma_find_props(body@, ps as int, crlf() + delim@);
                                }
                                let data = copy_range(body, ps, pe);
                                match parse_from(body, delim, pe + 2 + delim.len()) {
                                    Err(e) => Err(e),
                                    Ok(mut parts) => {
                                        let ghost old_parts = parts@;
                                        let part = Part { filename: name, data };
                                        parts.insert(0, part);
                                        proof {
                                            assert(parts_view(parts@) =~= seq![
                                                (name@, body@.subrange(ps as int, pe as int)),
                                            ] + parts_view(old_parts));
                                        }
                                        Ok(parts)
                                    },
                                }
                            },
                        }
                    },
                }
            },
        }
    } else {
        Err(UploadError::MalformedUpload)
    }
}

/// The parts encoded in a whole multipart body with the given boundary, or
/// `None` when the body is malformed.
pub open spec fn spec_parse(body: Seq<u8>, boundary: Seq<u8>) -> Option<Seq<(Seq<u8>, Seq<u8>)>> {
    if boundary.len() < 1 {
        None
    } else {
        let delim = seq![45u8, 45u8] + boundary;
        if match_at(body, 0, delim) {
            spec_parse_from(body, delim, delim.len() as int)
        } else {
            None
        }
    }
}

/// Decodes a multipart body into its ordered parts.  Succeeds exactly on
/// bodies that follow the grammar with every part carrying a usable
/// filename; any other body is a malformed upload.
pub fn parse_multipart(body: &Vec<u8>, boundary: &Vec<u8>) -> (r: Result<Vec<Part>, UploadError>)
    ensures
        match spec_parse(body@, boundary@) {
            Some(ps) => r is Ok && parts_view(r.unwrap()@) == ps && forall|k: int|
                0 <= k < r.unwrap()@.len() ==> (#[trigger] r.unwrap()@[k]).wf()
                    && r.unwrap()@[k].data@.len() <= body@.len(),
            None => r == Result::<Vec<Part>, UploadError>::Err(UploadError::MalformedUpload),
        },
{
    if boundary.len() == 0 {
        return Err(UploadError::MalformedUpload);
    }
    let mut delim: Vec<u8> = vec![45u8, 45u8];
    let mut t: usize = 0;
    while t < boundary.len()
        invariant
            t <= boundary.len(),
            delim@ == seq![45u8, 45u8] + boundary@.take(t as int),
        decreases boundary.len() - t,
    {
        delim.push(boundary[t]);
        proof {
            assert(seq![45u8, 45u8] + boundary@.take(t + 1 as int) =~= (seq![45u8, 45u8]
                + boundary@.take(t as int)).push(boundary@[t as int]));
        }
        t = t + 1;
    }
    proof {
        assert(boundary@.take(boundary@.len() as int) =~= boundary@);
    }
    if delim.len() > body.len() {
        return Err(UploadError::MalformedUpload);
    }
    if eq_at(body, 0, &delim) {
        parse_from(body, &delim, delim.len())
    } else {
        Err(UploadError::MalformedUpload)
    }
}

} // verus!
