//! The per-request upload pipeline.
//!
//! One request is handled as a small state machine: the caller performs the
//! file writes (the only outside work the library cannot do itself), feeds
//! the outcome back in, and the machine decides everything else — which
//! bytes go to which path, how each part's metrics are measured, and what
//! response finally goes out.  Any failure aborts the whole request with a
//! single error response; no partial result list is ever produced.

use crate::errors::UploadError;
use crate::geometry::{target_height, target_width, Bounds};
use crate::imaging::{optimize_image, spec_optimize};
use crate::multipart::{parse_multipart, parts_view, spec_parse, Part};
use crate::report::{make_result, render_report, spec_report_json, ImageMetrics, UploadResult};
use vstd::prelude::*;

verus! {

/// What the caller must do next on the library's behalf.
pub enum Action {
    /// Create or overwrite the file at `path` (under the storage root) with
    /// `data`, creating the root directory first if it is absent.
    WriteFile { path: Vec<u8>, data: Vec<u8> },
    /// Send this response to the client; the request is finished.
    Respond { status: u16, body: String },
}

/// The outcome of the file write the last action asked for.
#[derive(Clone, Copy, Debug, PartialEq, Eq, Structural)]
pub enum Event {
    WriteOk,
    WriteFailed,
}

/// Where the machine stands within the current part.
#[derive(Clone, Copy, Debug, PartialEq, Eq, Structural)]
pub enum Phase {
    /// Waiting for the part's original bytes to be persisted.
    Persist,
    /// Waiting for the re-encoded bytes to be written back.
    WriteBack,
    /// A response has been issued.
    Done,
}

/// The path a part is persisted at: `<root>/<filename>`, with no
/// sanitization of the client-declared filename.
pub open spec fn path_of(root: Seq<u8>, name: Seq<u8>) -> Seq<u8> {
    root + seq![47u8] + name
}

/// Appends all of `src` to `out`.
fn extend_bytes(out: &mut Vec<u8>, src: &Vec<u8>)
    ensures
        final(out)@ == old(out)@ + src@,
{
    let ghost base = old(out)@;
    let mut i: usize = 0;
    while i < src.len()
        invariant
            i <= src.len(),
            out@ == base + src@.take(i as int),
        decreases src.len() - i,
    {
        out.push(src[i]);
        proof {
            assert(base + src@.take(i + 1 as int) =~= (base + src@.take(i as int)).push(
                src@[i as int],
            ));
        }
        i = i + 1;
    }
    proof {
        assert(base + src@.take(src@.len() as int) =~= base + src@);
    }
}

/// A fresh copy of `v`.
fn clone_bytes(v: &Vec<u8>) -> (r: Vec<u8>)
    ensures
        r@ == v@,
{
    let mut out: Vec<u8> = Vec::new();
    extend_bytes(&mut out, v);
    proof {
        assert(Seq::<u8>::empty() + v@ =~= v@);
    }
    out
}

/// Builds `<root>/<filename>`.
fn part_path(root: &Vec<u8>, name: &Vec<u8>) -> (r: Vec<u8>)
    ensures
        r@ == path_of(root@, name@),
{
    let mut out: Vec<u8> = Vec::new();
    extend_bytes(&mut out, root);
    out.push(47);
    extend_bytes(&mut out, name);
    proof {
        assert(((Seq::<u8>::empty() + root@).push(47u8)) + name@ =~= path_of(root@, name@));
    }
    out
}

/// A fully processed part's record agrees with the part it came from and
/// with the configured bounds: same filename, original byte count measured
/// from the part's own bytes, and optimized dimensions exactly the planned
/// bounding-box resize of the probed original dimensions.
pub open spec fn result_ok(r: UploadResult, p: Part, bounds: Bounds) -> bool {
    &&& r.wf()
    &&& r.original.dims.wf()
    &&& r.filename@ == p.filename@
    &&& r.original.bytes == p.data@.len()
    &&& r.optimized.dims.width == target_width(r.original.dims, bounds)
    &&& r.optimized.dims.height == target_height(r.original.dims, bounds)
}

/// The state machine for one upload request.
pub struct Pipeline {
    /// Storage root the caller persists files under.
    pub root: Vec<u8>,
    /// Maximum dimensions for the optimisation step.
    pub bounds: Bounds,
    /// The decoded parts of the request, in arrival order.
    pub parts: Vec<Part>,
    /// Index of the part currently being processed.
    pub idx: usize,
    pub phase: Phase,
    /// One record per fully processed part, in order.
    pub results: Vec<UploadResult>,
}

impl Pipeline {
    pub open spec fn wf(self) -> bool {
        &&& self.bounds.wf()
        &&& self.idx <= self.parts@.len()
        &&& forall|k: int|
            0 <= k < self.parts@.len() ==> (#[trigger] self.parts@[k]).wf()
                && self.parts@[k].data@.len() < 0x8000_0000_0000_0000
        &&& forall|k: int|
            0 <= k < self.results@.len() ==> result_ok(
                #[trigger] self.results@[k],
                self.parts@[k],
                self.bounds,
            )
        &&& match self.phase {
            Phase::Persist => self.idx < self.parts@.len() && self.results@.len() == self.idx,
            Phase::WriteBack => self.idx < self.parts@.len() && self.results@.len() == self.idx
                + 1,
            Phase::Done => self.results@.len() <= self.parts@.len(),
        }
    }

    pub open spec fn spec_done(self) -> bool {
        self.phase == Phase::Done
    }

    /// Whether a response has already been issued.
    pub fn done(&self) -> (r: bool)
        ensures
            r == self.spec_done(),
    {
        match self.phase {
            Phase::Done => true,
            _ => false,
        }
    }

    /// Begins a request: decodes the multipart body and issues the first
    /// action.  A malformed body is answered at once with the client-error
    /// response; a body with no parts is answered at once with the empty
    /// report; otherwise the first part's original bytes are sent to disk.
    pub fn start(root: Vec<u8>, bounds: Bounds, body: &Vec<u8>, boundary: &Vec<u8>) -> (r: (
        Pipeline,
        Action,
    ))
        requires
            bounds.wf(),
            body@.len() < 0x8000_0000_0000_0000,
        ensures
            r.0.wf(),
            r.0.root@ == root@,
            r.0.bounds == bounds,
            match spec_parse(body@, boundary@) {
                None => r.1 matches Action::Respond { status, body: resp } && status
                    == UploadError::MalformedUpload.spec_status() && resp@
                    == UploadError::MalformedUpload.spec_message() && r.0.spec_done(),
                Some(ps) => {
                    if ps.len() == 0 {
                        r.1 matches Action::Respond { status, body: resp } && status == 200
                            && resp@ == spec_report_json(Seq::empty()) && r.0.spec_done()
                    } else {
                        r.1 matches Action::WriteFile { path, data } && path@ == path_of(
                            root@,
                            ps[0].0,
                        ) && data@ == ps[0].1 && !r.0.spec_done() && parts_view(r.0.parts@) == ps
                            && r.0.results@.len() == 0
                    }
                },
            },
    {
        match parse_multipart(body, boundary) {
            Err(e) => {
                let pl = Pipeline {
                    root,
                    bounds,
                    parts: Vec::new(),
                    idx: 0,
                    phase: Phase::Done,
                    results: Vec::new(),
                };
                let act = Action::Respond { status: e.status(), body: e.message().to_owned() };
                (pl, act)
            },
            Ok(parts) => {
                if parts.len() == 0 {
                    let empty: Vec<UploadResult> = Vec::new();
                    let report = render_report(&empty);
                    let pl = Pipeline {
                        root,
                        bounds,
                        parts,
                        idx: 0,
                        phase: Phase::Done,
                        results: Vec::new(),
                    };
                    (pl, Action::Respond { status: 200, body: report })
                } else {
                    let path = part_path(&root, &parts[0].filename);
                    let data = clone_bytes(&parts[0].data);
                    let pl = Pipeline {
                        root,
                        bounds,
                        parts,
                        idx: 0,
                        phase: Phase::Persist,
                        results: Vec::new(),
                    };
                    proof {
                        assert(parts_view(pl.parts@)[0] == pl.parts@[0]@);
                    }
                    (pl, Action::WriteFile { path, data })
                }
            },
        }
    }

    /// Advances the machine after the caller performed the requested write.
    /// A failed write, an undecodable part, or a part whose extension no
    /// encoder claims aborts the request with a server-error response; when
    /// the last part's write-back succeeds, the machine responds with the
    /// full JSON report covering every part.
    pub fn step(&mut self, ev: Event) -> (a: Action)
        requires
            old(self).wf(),
            !old(self).spec_done(),
        ensures
            final(self).wf(),
            final(self).root == old(self).root,
            final(self).bounds == old(self).bounds,
            final(self).parts == old(self).parts,
            match a {
                Action::WriteFile { path, data } => !final(self).spec_done() && final(self).idx
                    < final(self).parts@.len() && path@ == path_of(
                    final(self).root@,
                    final(self).parts@[final(self).idx as int].filename@,
                ),
                Action::Respond { status, body } => final(self).spec_done() && (if status == 200 {
                    final(self).results@.len() == final(self).parts@.len() && body@
                        == spec_report_json(final(self).results@)
                } else {
                    status == 500 && exists|e: UploadError|
                        (#[trigger] e.spec_status()) == 500 && body@ == e.spec_message()
                }),
            },
            ev == Event::WriteFailed ==> a is Respond,
            (ev == Event::WriteFailed && old(self).phase == Phase::Persist) ==> (a matches
            Action::Respond { status, body } && status == 500 && body@
                == UploadError::StorageError.spec_message()),
            (ev == Event::WriteFailed && old(self).phase == Phase::WriteBack) ==> (a matches
            Action::Respond { status, body } && status == 500 && body@
                == UploadError::EncodeError.spec_message()),
            (ev == Event::WriteOk && old(self).phase == Phase::Persist) ==> (match spec_optimize(
                old(self).parts@[old(self).idx as int].data@,
                old(self).parts@[old(self).idx as int].filename@,
                old(self).bounds,
            ) {
                Err(err) => a matches Action::Respond { status, body } && status == 500 && body@
                    == err.spec_message() && final(self).spec_done() && final(self).results
                    == old(self).results,
                Ok(s) => a matches Action::WriteFile { path, data } && path@ == path_of(
                    old(self).root@,
                    old(self).parts@[old(self).idx as int].filename@,
                ) && data@ == s.2 && final(self).phase == Phase::WriteBack && final(self).idx
                    == old(self).idx && final(self).results@ == old(self).results@.push(
                    final(self).results@.last(),
                ) && final(self).results@.last().filename@
                    == old(self).parts@[old(self).idx as int].filename@
                    && final(self).results@.last().original.dims == s.0
                    && final(self).results@.last().original.bytes
                    == old(self).parts@[old(self).idx as int].data@.len()
                    && final(self).results@.last().optimized.dims == s.1
                    && final(self).results@.last().optimized.bytes == s.2.len(),
            }),
            (ev == Event::WriteOk && old(self).phase == Phase::WriteBack) ==> (if old(self).idx
                + 1 < old(self).parts@.len() {
                a matches Action::WriteFile { path, data } && path@ == path_of(
                    old(self).root@,
                    old(self).parts@[old(self).idx + 1].filename@,
                ) && data@ == old(self).parts@[old(self).idx + 1].data@ && final(self).idx
                    == old(self).idx + 1 && final(self).phase == Phase::Persist
                    && final(self).results == old(self).results
            } else {
                a matches Action::Respond { status, body } && status == 200 && body@
                    == spec_report_json(final(self).results@) && final(self).results
                    == old(self).results && final(self).results@.len() == old(self).parts@.len()
            }),
    {
        match self.phase {
            Phase::Persist => {
                match ev {
                    Event::WriteFailed => self.fail(UploadError::StorageError),
                    Event::WriteOk => {
                        proof {
                            assert(self.parts@[self.idx as int].wf());
                        }
                        let part_data_len: usize = self.parts[self.idx].data.len();
                        match optimize_image(
                            &self.parts[self.idx].data,
                            &self.parts[self.idx].filename,
                            self.bounds,
                        ) {
                            Err(e) => self.fail(e),
                            Ok((orig, opt, enc)) => {
                                let original = ImageMetrics {
                                    dims: orig,
                                    bytes: part_data_len as u64,
                                };
                                let optimized = ImageMetrics { dims: opt, bytes: enc.len() as u64 };
                                let fname = clone_bytes(&self.parts[self.idx].filename);
                                let res = make_result(fname, original, optimized);
                                let path = part_path(&self.root, &self.parts[self.idx].filename);
                                self.results.push(res);
                                self.phase = Phase::WriteBack;
                                proof {
                                    crate::geometry::lemma_target_fits(orig, self.bounds);
                                    assert forall|k: int|
                                        0 <= k < self.results@.len() implies result_ok(
                                        #[trigger] self.results@[k],
                                        self.parts@[k],
                                        self.bounds,
                                    ) by {
                                        if k < self.results@.len() - 1 {
                                            assert(self.results@[k] == old(self).results@[k]);
                                        } else {
                                            assert(self.results@[k] == res);
                                        }
                                    }
                                }
                                Action::WriteFile { path, data: enc }
                            },
                        }
                    },
                }
            },
            Phase::WriteBack => {
                match ev {
                    Event::WriteFailed => self.fail(UploadError::EncodeError),
                    Event::WriteOk => {
                        let plen: usize = self.parts.len();
                        let next: usize = self.idx + 1;
                        if next < plen {
                            self.idx = next;
                            self.phase = Phase::Persist;
                            let path = part_path(&self.root, &self.parts[next].filename);
                            let data = clone_bytes(&self.parts[next].data);
                            Action::WriteFile { path, data }
                        } else {
                            self.idx = next;
                            self.phase = Phase::Done;
                            let report = render_report(&self.results);
                            Action::Respond { status: 200, body: report }
                        }
                    },
                }
            },
            Phase::Done => {
                // unreachable under the precondition
                Action::Respond { status: 500, body: UploadError::StorageError.message().to_owned() }
            },
        }
    }

    /// Aborts the request with the response for `e`.
    fn fail(&mut self, e: UploadError) -> (a: Action)
        requires
            old(self).wf(),
            !e.is_client_error(),
        ensures
            final(self).wf(),
            final(self).spec_done(),
            final(self).root == old(self).root,
            final(self).bounds == old(self).bounds,
            final(self).parts == old(self).parts,
            final(self).results == old(self).results,
            a matches Action::Respond { status, body } && status == 500 && body@
                == e.spec_message() && (exists|x: UploadError|
                (#[trigger] x.spec_status()) == 500 && body@ == x.spec_message()),
    {
        self.phase = Phase::Done;
        let msg = e.message().to_owned();
        proof {
            assert(e.spec_status() == 500 && msg@ == e.spec_message());
        }
        Action::Respond { status: e.status(), body: msg }
    }
}

/// Laws of every reported record of a well-formed pipeline: the optimized
/// dimensions never exceed the configured bounds; a file whose original
/// dimensions already fit keeps them exactly; the byte delta is exactly the
/// difference of the two measured counts; and the record belongs, filename
/// and original byte count included, to the part at the same position.
pub proof fn lemma_result_laws(pl: Pipeline, k: int)
    requires
        pl.wf(),
        0 <= k < pl.results@.len(),
    ensures
        crate::geometry::fits(pl.results@[k].optimized.dims, pl.bounds),
        crate::geometry::fits(pl.results@[k].original.dims, pl.bounds) ==> pl.results@[k].optimized.dims
            == pl.results@[k].original.dims,
        pl.results@[k].bytes_saved == pl.results@[k].original.bytes
            - pl.results@[k].optimized.bytes,
        pl.results@[k].filename@ == pl.parts@[k].filename@,
        pl.results@[k].original.bytes == pl.parts@[k].data@.len(),
{
    let r = pl.results@[k];
    assert(result_ok(r, pl.parts@[k], pl.bounds));
    crate::geometry::lemma_target_fits(r.original.dims, pl.bounds);
}

/// The response for a request whose body could not be read at all: the
/// stream fault is a server-side abort, with no result array.
pub fn stream_failure_response() -> (r: (u16, String))
    ensures
        r.0 == UploadError::StreamError.spec_status(),
        r.1@ == UploadError::StreamError.spec_message(),
{
    (UploadError::StreamError.status(), UploadError::StreamError.message().to_owned())
}

} // verus!
