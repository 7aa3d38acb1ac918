//! A streaming BSON dump library: reads length-prefixed documents from a
//! byte stream and renders each one as canonical extended JSON, as
//! pretty-printed extended JSON, or as a structural debug trace of byte
//! offsets and per-field sizes.

pub mod codec;
pub mod numfmt;
pub mod reader;
pub mod render;
pub mod sizes;

use vstd::prelude::*;

use crate::codec::doc_to_extjson;
use crate::codec::doc_to_pretty_extjson;
use crate::codec::extjson_of;
use crate::codec::pretty_extjson_of;
use crate::numfmt::append_dec;
use crate::numfmt::dec_chars;
use crate::reader::frame_at;
use crate::reader::lemma_frame_doc;
use crate::reader::lemma_frame_fail_wf;
use crate::reader::raw_document_bufs;
use crate::reader::read_error_message;
use crate::reader::Frame;
use crate::reader::ReadError;
use crate::render::debug_text_of;
use crate::render::doc_renders;
use crate::render::lemma_debug_text_of;
use crate::render::render_document;

verus! {

/// The smallest number of bytes a well-formed document can occupy:
/// a 4-byte length prefix plus the terminating null byte.
pub const MIN_BSON_SIZE: usize = 5;

/// The largest document length accepted from the stream: the 16 MiB
/// document limit plus 16 KiB of slack for oplog-sized records.
pub const MAX_BSON_SIZE: usize = (16 * 1024 * 1024) + (16 * 1024);

/// The three output modes.
#[derive(Clone, Copy, Debug, PartialEq, Eq, Structural)]
pub enum DumpMode {
    Json,
    PrettyJson,
    Debug,
}

/// Why a run stopped early: the record reader failed, or a document did
/// not decode while strict validation was on.
pub enum RunErrorS {
    Frame(ReadError),
    Decode,
}

/// The outcome of one run over a byte stream: the rendered text, the
/// number of documents rendered, and the failure that stopped the run,
/// if any.
pub struct RunS {
    pub text: Seq<u8>,
    pub count: nat,
    pub err: Option<RunErrorS>,
}

/// The text one document contributes to the output: its extended-JSON
/// line, its pretty-printed text followed by a newline, or its debug
/// trace; `None` where the document does not decode.
pub open spec fn doc_piece(mode: DumpMode, doc: Seq<u8>) -> Option<Seq<u8>> {
    match mode {
        DumpMode::Json => match extjson_of(doc) {
            Option::Some(t) => Some(t + seq![10u8]),
            Option::None => None,
        },
        DumpMode::PrettyJson => match pretty_extjson_of(doc) {
            Option::Some(t) => Some(t + seq![10u8]),
            Option::None => None,
        },
        DumpMode::Debug => if doc_renders(doc) {
            Some(debug_text_of(doc))
        } else {
            None
        },
    }
}

/// One run over a byte stream, record by record: a reader failure stops
/// the run at once; a document that does not decode stops it when strict
/// validation is on and is skipped silently when it is off; every other
/// document appends its text and counts.
pub open spec fn run_rec(mode: DumpMode, s: Seq<u8>, objcheck: bool) -> RunS
    decreases s.len(),
{
    match frame_at(s) {
        Frame::End => RunS { text: Seq::empty(), count: 0, err: None },
        Frame::Fail(e) => RunS { text: Seq::empty(), count: 0, err: Some(RunErrorS::Frame(e)) },
        Frame::Doc { doc, rest } => match doc_piece(mode, doc) {
            Option::Some(t) => {
                let r = run_rec(mode, rest, objcheck);
                RunS { text: t + r.text, count: r.count + 1, err: r.err }
            },
            Option::None => if objcheck {
                RunS { text: Seq::empty(), count: 0, err: Some(RunErrorS::Decode) }
            } else {
                run_rec(mode, rest, objcheck)
            },
        },
    }
}

/// A count clamped to what the 32-bit counter can report.
pub open spec fn saturated_u32(n: nat) -> u32 {
    if n >= u32::MAX {
        u32::MAX
    } else {
        n as u32
    }
}

/// Whether a reported message fits the failure: reader failures carry
/// their exact diagnostic text; what a decode failure says comes from
/// the codec and is not pinned here.
pub open spec fn run_error_message_ok(k: RunErrorS, m: Seq<char>) -> bool {
    match k {
        RunErrorS::Frame(e) => m == read_error_message(e),
        RunErrorS::Decode => true,
    }
}

/// How many newline bytes a text holds.
pub open spec fn newline_count(s: Seq<u8>) -> nat
    decreases s.len(),
{
    if s.len() == 0 {
        0
    } else {
        newline_count(s.drop_first()) + (if s[0] == 10 {
            1nat
        } else {
            0nat
        })
    }
}

pub proof fn lemma_newline_count_add(a: Seq<u8>, b: Seq<u8>)
    ensures
        newline_count(a + b) == newline_count(a) + newline_count(b),
    decreases a.len(),
{
    if a.len() == 0 {
        assert(a + b =~= b);
    } else {
        assert((a + b).drop_first() =~= a.drop_first() + b);
        assert((a + b)[0] == a[0]);
        lemma_newline_count_add(a.drop_first(), b);
    }
}

pub proof fn lemma_newline_count_zero(s: Seq<u8>)
    requires
        forall|i: int| 0 <= i < s.len() ==> #[trigger] s[i] != 10u8,
    ensures
        newline_count(s) == 0,
    decreases s.len(),
{
    if s.len() > 0 {
        assert(forall|i: int| 0 <= i < s.drop_first().len() ==> #[trigger] s.drop_first()[i] == s[
            i + 1
        ]);
        lemma_newline_count_zero(s.drop_first());
    }
}

/// Running debug mode on a stream is a function of the input bytes and
/// the validation flag alone, so two runs over the same bytes produce
/// byte-for-byte identical text.
pub proof fn lemma_debug_idempotent(input: Seq<u8>, objcheck: bool, t1: Seq<u8>, t2: Seq<u8>)
    requires
        t1 == run_rec(DumpMode::Debug, input, objcheck).text,
        t2 == run_rec(DumpMode::Debug, input, objcheck).text,
    ensures
        t1 == t2,
{
}

/// What a failed run reports: how many documents were rendered before
/// the failure, and a diagnostic message.
#[derive(Debug)]
pub struct BsonDumpError {
    pub num_found: u32,
    pub message: String,
}

impl BsonDumpError {
    /// The number of documents rendered before the failure.
    pub fn get_num_found(&self) -> (r: u32)
        ensures
            r == self.num_found,
    {
        self.num_found
    }

    /// The diagnostic message.
    pub fn get_message(&self) -> (r: &str)
        ensures
            r@ == self.message@,
    {
        self.message.as_str()
    }
}

/// The diagnostic summary line reported at the end of every run.
pub fn num_found_message(n: u32) -> (r: String)
    ensures
        r@ == dec_chars(n as nat) + " objects found"@,
{
    let mut s = String::new();
    append_dec(&mut s, n as u64);
    s.append(" objects found");
    assert(s@ =~= dec_chars(n as nat) + " objects found"@);
    s
}

/// One dump over one input stream: pulls records from the reader, renders
/// each through the selected mode, and accumulates the output and the
/// count of documents rendered.
pub struct BsonDump {
    pub input: Vec<u8>,
    pub output: Vec<u8>,
    pub objcheck: bool,
    pub num_found: u32,
}

impl BsonDump {
    /// Starts a dump over `input`. With `objcheck` on, a document that
    /// fails to decode stops the run; with it off such a document is
    /// skipped.
    pub fn new(input: Vec<u8>, objcheck: bool) -> (d: Self)
        ensures
            d.input@ == input@,
            d.objcheck == objcheck,
            d.num_found == 0,
            d.output@ == Seq::<u8>::empty(),
    {
        BsonDump { input, output: Vec::new(), objcheck, num_found: 0 }
    }

    /// Renders every document as one line of canonical extended JSON.
    /// An error-free run appends exactly one output line per rendered
    /// document, in stream order.
    pub fn json(&mut self) -> (r: Result<u32, BsonDumpError>)
        ensures
            final(self).input@ == old(self).input@,
            final(self).objcheck == old(self).objcheck,
            ({
                let run = run_rec(DumpMode::Json, old(self).input@, old(self).objcheck);
                &&& final(self).output@ == old(self).output@ + run.text
                &&& final(self).num_found == saturated_u32(run.count)
                &&& (run.err is None <==> r is Ok)
                &&& (r matches Ok(n) ==> n == saturated_u32(run.count))
                &&& (r matches Err(e) ==> run.err matches Some(k) && e.num_found == saturated_u32(
                    run.count,
                ) && run_error_message_ok(k, e.message@))
                &&& (run.err is None ==> newline_count(run.text) == run.count)
            }),
    {
        self.run(DumpMode::Json)
    }

    /// Renders every document as pretty-printed extended JSON with one
    /// tab as the indentation unit, each document followed by a newline.
    pub fn pretty_json(&mut self) -> (r: Result<u32, BsonDumpError>)
        ensures
            final(self).input@ == old(self).input@,
            final(self).objcheck == old(self).objcheck,
            ({
                let run = run_rec(DumpMode::PrettyJson, old(self).input@, old(self).objcheck);
                &&& final(self).output@ == old(self).output@ + run.text
                &&& final(self).num_found == saturated_u32(run.count)
                &&& (run.err is None <==> r is Ok)
                &&& (r matches Ok(n) ==> n == saturated_u32(run.count))
                &&& (r matches Err(e) ==> run.err matches Some(k) && e.num_found == saturated_u32(
                    run.count,
                ) && run_error_message_ok(k, e.message@))
            }),
    {
        self.run(DumpMode::PrettyJson)
    }

    /// Renders every document as a structural debug trace.
    pub fn debug(&mut self) -> (r: Result<u32, BsonDumpError>)
        ensures
            final(self).input@ == old(self).input@,
            final(self).objcheck == old(self).objcheck,
            ({
                let run = run_rec(DumpMode::Debug, old(self).input@, old(self).objcheck);
                &&& final(self).output@ == old(self).output@ + run.text
                &&& final(self).num_found == saturated_u32(run.count)
                &&& (run.err is None <==> r is Ok)
                &&& (r matches Ok(n) ==> n == saturated_u32(run.count))
                &&& (r matches Err(e) ==> run.err matches Some(k) && e.num_found == saturated_u32(
                    run.count,
                ) && run_error_message_ok(k, e.message@))
            }),
    {
        self.run(DumpMode::Debug)
    }

    /// The run shared by the three modes.
    fn run(&mut self, mode: DumpMode) -> (r: Result<u32, BsonDumpError>)
        ensures
            final(self).input@ == old(self).input@,
            final(self).objcheck == old(self).objcheck,
            ({
                let run = run_rec(mode, old(self).input@, old(self).objcheck);
                &&& final(self).output@ == old(self).output@ + run.text
                &&& final(self).num_found == saturated_u32(run.count)
                &&& (run.err is None <==> r is Ok)
                &&& (r matches Ok(n) ==> n == saturated_u32(run.count))
                &&& (r matches Err(e) ==> run.err matches Some(k) && e.num_found == saturated_u32(
                    run.count,
                ) && run_error_message_ok(k, e.message@))
                &&& (mode == DumpMode::Json && run.err is None ==> newline_count(run.text)
                    == run.count)
            }),
    {
        self.num_found = 0;
        let ghost input0 = self.input@;
        let ghost out0 = self.output@;
        let ghost oc = self.objcheck;
        let ghost full = run_rec(mode, input0, oc);
        let mut rdr = raw_document_bufs(&self.input);
        let ghost mut gcount: nat = 0;
        let ghost mut appended: Seq<u8> = Seq::empty();
        proof {
            assert(rdr.remaining() =~= input0);
            assert(full.text =~= appended + full.text);
            assert(self.output@ =~= out0 + appended);
        }
        loop
            invariant_except_break
                input0 == old(self).input@,
                out0 == old(self).output@,
                oc == old(self).objcheck,
                self.input@ == input0,
                self.objcheck == oc,
                self.output@ == out0 + appended,
                rdr.input@ == input0,
                rdr.wf(),
                full == run_rec(mode, input0, oc),
                ({
                    let rem = run_rec(mode, rdr.remaining(), oc);
                    &&& full.text == appended + rem.text
                    &&& full.count == gcount + rem.count
                    &&& full.err == rem.err
                }),
                self.num_found == saturated_u32(gcount),
                mode == DumpMode::Json ==> newline_count(appended) == gcount,
            ensures
                input0 == old(self).input@,
                out0 == old(self).output@,
                oc == old(self).objcheck,
                self.input@ == input0,
                self.objcheck == oc,
                self.output@ == out0 + appended,
                frame_at(rdr.remaining()) is End,
                ({
                    let rem = run_rec(mode, rdr.remaining(), oc);
                    &&& full.text == appended + rem.text
                    &&& full.count == gcount + rem.count
                    &&& full.err == rem.err
                }),
                self.num_found == saturated_u32(gcount),
                mode == DumpMode::Json ==> newline_count(appended) == gcount,
            decreases rdr.remaining().len(),
        {
            let ghost rempre = rdr.remaining();
            let next = rdr.next();
            match next {
                None => {
                    break ;
                },
                Some(Err(re)) => {
                    proof {
                        lemma_frame_fail_wf(rempre);
                    }
                    let msg = re.message();
                    return Err(BsonDumpError { num_found: self.num_found, message: msg });
                },
                Some(Ok(doc)) => {
                    proof {
                        lemma_frame_doc(rempre);
                    }
                    let ghost docseq = doc@;
                    let piece_res: Result<Vec<u8>, String> = match mode {
                        DumpMode::Json => doc_to_extjson(doc.as_slice()),
                        DumpMode::PrettyJson => doc_to_pretty_extjson(doc.as_slice()),
                        DumpMode::Debug => render_document(&doc, 0),
                    };
                    match piece_res {
                        Ok(mut t) => {
                            let ghost traw = t@;
                            proof {
                                if mode is Debug {
                                    let f = choose|f: nat|
                                        #[trigger] crate::render::doc_text(docseq, 0, f) == Some(
                                            traw,
                                        );
                                    lemma_debug_text_of(docseq, f);
                                }
                                assert(doc_piece(mode, docseq) is Some);
                            }
                            self.output.append(&mut t);
                            let newline_after = match mode {
                                DumpMode::Json | DumpMode::PrettyJson => true,
                                DumpMode::Debug => false,
                            };
                            if newline_after {
                                self.output.push(10);
                            }
                            if self.num_found < u32::MAX {
                                self.num_found = self.num_found + 1;
                            }
                            proof {
                                let piece = doc_piece(mode, docseq).unwrap();
                                if mode is Debug {
                                    assert(piece == traw);
                                    assert(self.output@ =~= out0 + (appended + piece));
                                } else {
                                    assert(piece =~= traw + seq![10u8]);
                                    assert(self.output@ =~= out0 + (appended + piece));
                                }
                                if mode is Json {
                                    lemma_newline_count_add(appended, piece);
                                    lemma_newline_count_add(traw, seq![10u8]);
                                    lemma_newline_count_zero(traw);
                                    assert(newline_count(seq![10u8]) == 1) by {
                                        reveal_with_fuel(newline_count, 2);
                                        assert(seq![10u8][0] == 10u8);
                                        assert(seq![10u8].len() == 1);
                                        assert(seq![10u8].drop_first() =~= Seq::<u8>::empty());
                                    }
                                }
                                appended = appended + piece;
                                gcount = gcount + 1;
                            }
                        },
                        Err(msg) => {
                            proof {
                                if mode is Debug {
                                    assert(!doc_renders(docseq));
                                }
                                assert(doc_piece(mode, docseq) is None);
                            }
                            if self.objcheck {
                                return Err(
                                    BsonDumpError { num_found: self.num_found, message: msg },
                                );
                            }
                        },
                    }
                },
            }
        }
        Ok(self.num_found)
    }
}

} // verus!
