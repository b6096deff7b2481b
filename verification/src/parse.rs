//! The backtrace assembler: consumes the ordered stream of classified
//! lines in a single forward pass with one line of lookahead, and produces
//! the complete backtraces found in it.
use vstd::prelude::*;

use crate::classify::classify;
use crate::classify::classify_full;
use crate::classify::ClassifyError;
use crate::classify::ParsedLine;
use crate::classify::ParsedLineV;
use crate::Backtrace;
use crate::BacktraceV;
use crate::Frame;
use crate::FrameV;
use crate::PanicInfo;
use crate::PanicInfoV;
use crate::SourceInfo;

verus! {

/// The assembler's working state: the frames gathered since the last
/// boundary, the panic report being built, whether message lines are
/// still being collected into it, and the backtraces already emitted.
pub ghost struct AsmState {
    pub frames: Seq<FrameV>,
    pub panic_info: Option<PanicInfoV>,
    pub collecting: bool,
    pub done: Seq<BacktraceV>,
}

/// The state before any event: nothing gathered, nothing emitted.
pub open spec fn asm_init() -> AsmState {
    AsmState { frames: Seq::empty(), panic_info: None, collecting: false, done: Seq::empty() }
}

/// Crossing a boundary: a backtrace is emitted only when at least one
/// frame was gathered, and then the gathered frames and panic report are
/// reset; with no frames, nothing is emitted and the panic report is kept.
pub open spec fn asm_flush(st: AsmState) -> AsmState {
    if st.frames.len() > 0 {
        AsmState {
            frames: Seq::empty(),
            panic_info: None,
            collecting: false,
            done: st.done.push(BacktraceV { frames: st.frames, panic_info: st.panic_info }),
        }
    } else {
        AsmState { collecting: false, ..st }
    }
}

/// The backtraces produced by assembling `events[i..]` starting from
/// state `st`: a single forward pass in which a panic line starts a new
/// panic report, other lines extend a report still being collected, a
/// boundary flushes, a frame header gathers a frame (consuming an
/// immediately following source line as that frame's position), a stray
/// source line is dropped, and the end of input flushes once more.
pub open spec fn assemble_from(events: Seq<ParsedLineV>, i: int, st: AsmState) -> Seq<BacktraceV>
    decreases events.len() - i, 1int,
{
    if i < 0 || i >= events.len() {
        asm_flush(st).done
    } else {
        match events[i] {
            ParsedLineV::ThreadPanic { thread, at } => assemble_from(
                events,
                i + 1,
                AsmState {
                    panic_info: Some(PanicInfoV { thread, at, message: Seq::empty() }),
                    collecting: true,
                    ..st
                },
            ),
            ParsedLineV::Other(text) => assemble_from(
                events,
                i + 1,
                match st.panic_info {
                    Some(pi) => if st.collecting {
                        AsmState {
                            panic_info: Some(
                                PanicInfoV { message: pi.message.push(text), ..pi },
                            ),
                            ..st
                        }
                    } else {
                        st
                    },
                    None => st,
                },
            ),
            ParsedLineV::BacktraceStart => assemble_from(events, i + 1, asm_flush(st)),
            ParsedLineV::BacktraceHeader { function, frameno } => {
                if i + 1 < events.len() && events[i + 1] is BacktraceSource {
                    assemble_from(
                        events,
                        i + 2,
                        AsmState {
                            frames: st.frames.push(
                                FrameV {
                                    function,
                                    frameno,
                                    source_info: Some(events[i + 1]->BacktraceSource_0),
                                },
                            ),
                            collecting: false,
                            ..st
                        },
                    )
                } else {
                    assemble_from(
                        events,
                        i + 1,
                        AsmState {
                            frames: st.frames.push(
                                FrameV { function, frameno, source_info: None },
                            ),
                            collecting: false,
                            ..st
                        },
                    )
                }
            },
            ParsedLineV::BacktraceSource(_) => assemble_from(
                events,
                i + 1,
                AsmState { collecting: false, ..st },
            ),
        }
    }
}

/// The backtraces assembled from a complete event stream.
pub open spec fn assemble(events: Seq<ParsedLineV>) -> Seq<BacktraceV> {
    assemble_from(events, 0, asm_init())
}

proof fn lemma_assemble_from_nonempty(events: Seq<ParsedLineV>, i: int, st: AsmState)
    requires
        forall|j: int| 0 <= j < st.done.len() ==> #[trigger] st.done[j].frames.len() > 0,
    ensures
        forall|j: int|
            0 <= j < assemble_from(events, i, st).len() ==> #[trigger] assemble_from(
                events,
                i,
                st,
            )[j].frames.len() > 0,
    decreases events.len() - i, 1int,
{
    if i < 0 || i >= events.len() {
        if st.frames.len() > 0 {
            let emitted = BacktraceV { frames: st.frames, panic_info: st.panic_info };
            assert(forall|j: int|
                0 <= j < st.done.push(emitted).len() ==> #[trigger] st.done.push(
                    emitted,
                )[j].frames.len() > 0);
        }
    } else {
        match events[i] {
            ParsedLineV::ThreadPanic { thread, at } => {
                lemma_assemble_from_nonempty(
                    events,
                    i + 1,
                    AsmState {
                        panic_info: Some(PanicInfoV { thread, at, message: Seq::empty() }),
                        collecting: true,
                        ..st
                    },
                );
            },
            ParsedLineV::Other(text) => {
                let next = match st.panic_info {
                    Some(pi) => if st.collecting {
                        AsmState {
                            panic_info: Some(PanicInfoV { message: pi.message.push(text), ..pi }),
                            ..st
                        }
                    } else {
                        st
                    },
                    None => st,
                };
                lemma_assemble_from_nonempty(events, i + 1, next);
            },
            ParsedLineV::BacktraceStart => {
                if st.frames.len() > 0 {
                    let emitted = BacktraceV { frames: st.frames, panic_info: st.panic_info };
                    assert(forall|j: int|
                        0 <= j < st.done.push(emitted).len() ==> #[trigger] st.done.push(
                            emitted,
                        )[j].frames.len() > 0);
                }
                lemma_assemble_from_nonempty(events, i + 1, asm_flush(st));
            },
            ParsedLineV::BacktraceHeader { function, frameno } => {
                if i + 1 < events.len() && events[i + 1] is BacktraceSource {
                    lemma_assemble_from_nonempty(
                        events,
                        i + 2,
                        AsmState {
                            frames: st.frames.push(
                                FrameV {
                                    function,
                                    frameno,
                                    source_info: Some(events[i + 1]->BacktraceSource_0),
                                },
                            ),
                            collecting: false,
                            ..st
                        },
                    );
                } else {
                    lemma_assemble_from_nonempty(
                        events,
                        i + 1,
                        AsmState {
                            frames: st.frames.push(
                                FrameV { function, frameno, source_info: None },
                            ),
                            collecting: false,
                            ..st
                        },
                    );
                }
            },
            ParsedLineV::BacktraceSource(_) => {
                lemma_assemble_from_nonempty(
                    events,
                    i + 1,
                    AsmState { collecting: false, ..st },
                );
            },
        }
    }
}

/// For every input event stream, every backtrace the assembler emits has
/// a non-empty frame list.
pub proof fn lemma_assembler_frames_nonempty(events: Seq<ParsedLineV>)
    ensures
        forall|j: int|
            0 <= j < assemble(events).len() ==> #[trigger] assemble(events)[j].frames.len() > 0,
{
    lemma_assemble_from_nonempty(events, 0, asm_init());
}

/// Two consecutive boundary markers with no frames between them produce
/// no backtrace for the gap: the whole stream below yields exactly one
/// backtrace, holding the one frame that follows the second marker.
pub proof fn lemma_boundary_merging(function: Seq<char>, frameno: int)
    ensures
        assemble(
            seq![
                ParsedLineV::BacktraceStart,
                ParsedLineV::BacktraceStart,
                ParsedLineV::BacktraceHeader { function, frameno },
            ],
        ) == seq![
            BacktraceV {
                frames: seq![FrameV { function, frameno, source_info: None }],
                panic_info: None,
            },
        ],
{
    let events = seq![
        ParsedLineV::BacktraceStart,
        ParsedLineV::BacktraceStart,
        ParsedLineV::BacktraceHeader { function, frameno },
    ];
    reveal_with_fuel(assemble_from, 5);
    let st2 = AsmState {
        frames: seq![FrameV { function, frameno, source_info: None }],
        panic_info: None,
        collecting: false,
        done: Seq::empty(),
    };
    assert(asm_flush(asm_init()) == asm_init());
    assert(assemble_from(events, 2, asm_init()) == assemble_from(
        events,
        3,
        AsmState { frames: asm_init().frames.push(FrameV { function, frameno, source_info: None }), collecting: false, ..asm_init() },
    ));
    assert(asm_init().frames.push(FrameV { function, frameno, source_info: None })
        =~= st2.frames);
    assert(assemble(events) =~= seq![
        BacktraceV {
            frames: seq![FrameV { function, frameno, source_info: None }],
            panic_info: None,
        },
    ]);
}

/// A frame header immediately followed by a source line yields one frame
/// carrying that source position: the source event is consumed by the
/// lookahead, not processed on its own.
pub proof fn lemma_lookahead_association(
    function: Seq<char>,
    frameno: int,
    si: crate::SourceInfoV,
)
    ensures
        assemble(
            seq![
                ParsedLineV::BacktraceHeader { function, frameno },
                ParsedLineV::BacktraceSource(si),
            ],
        ) == seq![
            BacktraceV {
                frames: seq![FrameV { function, frameno, source_info: Some(si) }],
                panic_info: None,
            },
        ],
{
    let events = seq![
        ParsedLineV::BacktraceHeader { function, frameno },
        ParsedLineV::BacktraceSource(si),
    ];
    reveal_with_fuel(assemble_from, 4);
    assert(events[1] is BacktraceSource && events[1]->BacktraceSource_0 == si);
    assert(assemble_from(events, 0, asm_init()) == assemble_from(
        events,
        2,
        AsmState {
            frames: asm_init().frames.push(FrameV { function, frameno, source_info: Some(si) }),
            collecting: false,
            ..asm_init()
        },
    ));
    assert(asm_init().frames.push(FrameV { function, frameno, source_info: Some(si) })
        =~= seq![FrameV { function, frameno, source_info: Some(si) }]);
    assert(assemble(events) =~= seq![
        BacktraceV {
            frames: seq![FrameV { function, frameno, source_info: Some(si) }],
            panic_info: None,
        },
    ]);
}

/// Parses a diagnostic stream line by line, keeping the classified lines
/// so the complete stream can be assembled into backtraces at the end of
/// input.
pub struct Parser {
    lines: Vec<ParsedLine>,
}

impl View for Parser {
    type V = Seq<ParsedLineV>;

    closed spec fn view(&self) -> Seq<ParsedLineV> {
        self.lines.deep_view()
    }
}

impl Parser {
    /// A parser that has seen no input.
    pub fn new() -> (p: Parser)
        ensures
            p@ == Seq::<ParsedLineV>::empty(),
    {
        let p = Parser { lines: Vec::new() };
        proof {
            assert(p@ =~= Seq::<ParsedLineV>::empty());
        }
        p
    }

    /// Classifies one line and appends the result. The only error is a
    /// numeric capture of a matching pattern that does not fit its
    /// integer type; the line is then not recorded.
    pub fn parse_line(&mut self, line: String) -> (r: Result<(), ClassifyError>)
        ensures
            match r {
                Ok(_) => classify_full(line@) is Ok && final(self)@ == old(self)@.push(
                    classify_full(line@)->Ok_0,
                ),
                Err(e) => classify_full(line@) == Err::<ParsedLineV, ClassifyError>(e)
                    && final(self)@ == old(self)@,
            },
    {
        match classify(line.as_str()) {
            Ok(l) => {
                let ghost lv = l@;
                self.lines.push(l);
                proof {
                    assert(self@ =~= old(self)@.push(lv));
                }
                Ok(())
            },
            Err(e) => Err(e),
        }
    }

    /// Assembles everything parsed so far into the list of complete
    /// backtraces, consuming the parser.
    pub fn into_backtraces(self) -> (r: Vec<Backtrace>)
        ensures
            r.deep_view() == assemble(self@),
    {
        let events = self.lines;
        let ghost evs = events.deep_view();
        let n = events.len();
        let mut backtraces: Vec<Backtrace> = Vec::new();
        let mut frames: Vec<Frame> = Vec::new();
        let mut panic_info: Option<PanicInfo> = None;
        let mut in_panic_info = false;
        let mut i: usize = 0;
        proof {
            assert(backtraces.deep_view() =~= Seq::<BacktraceV>::empty());
            assert(frames.deep_view() =~= Seq::<FrameV>::empty());
        }
        while i < n
            invariant
                i <= n,
                n == events@.len(),
                evs == events.deep_view(),
                evs.len() == n,
                assemble(evs) == assemble_from(
                    evs,
                    i as int,
                    AsmState {
                        frames: frames.deep_view(),
                        panic_info: panic_info.deep_view(),
                        collecting: in_panic_info,
                        done: backtraces.deep_view(),
                    },
                ),
            decreases n - i,
        {
            let ghost st = AsmState {
                frames: frames.deep_view(),
                panic_info: panic_info.deep_view(),
                collecting: in_panic_info,
                done: backtraces.deep_view(),
            };
            proof {
                assert(evs[i as int] == events[i as int].deep_view());
            }
            match &events[i] {
                ParsedLine::ThreadPanic { thread, at } => {
                    in_panic_info = true;
                    panic_info = Some(
                        PanicInfo { thread: thread.clone(), at: at.clone(), message: Vec::new() },
                    );
                    proof {
                        let pi = panic_info->Some_0;
                        assert(pi.message.deep_view() =~= Seq::<Seq<char>>::empty());
                    }
                    i = i + 1;
                },
                ParsedLine::Other(text) => {
                    if in_panic_info {
                        panic_info = match panic_info {
                            Some(mut pi) => {
                                let ghost msgs = pi.message.deep_view();
                                pi.message.push(text.clone());
                                proof {
                                    assert(pi.message.deep_view() =~= msgs.push(text@));
                                }
                                Some(pi)
                            },
                            None => None,
                        };
                    }
                    i = i + 1;
                },
                ParsedLine::BacktraceStart => {
                    in_panic_info = false;
                    if frames.len() > 0 {
                        let fs = frames;
                        frames = Vec::new();
                        let pi = panic_info;
                        panic_info = None;
                        backtraces.push(Backtrace { frames: fs, panic_info: pi });
                        proof {
                            assert(frames.deep_view() =~= Seq::<FrameV>::empty());
                            assert(backtraces.deep_view() =~= st.done.push(
                                BacktraceV { frames: st.frames, panic_info: st.panic_info },
                            ));
                        }
                    }
                    i = i + 1;
                },
                ParsedLine::BacktraceHeader { function, frameno } => {
                    in_panic_info = false;
                    let mut source_info: Option<SourceInfo> = None;
                    let mut step: usize = 1;
                    if i + 1 < n {
                        match &events[i + 1] {
                            ParsedLine::BacktraceSource(si) => {
                                source_info = Some(
                                    SourceInfo {
                                        file: si.file.clone(),
                                        lineno: si.lineno,
                                        colno: si.colno,
                                    },
                                );
                                step = 2;
                                proof {
                                    assert(evs[i + 1] == events[i + 1].deep_view());
                                }
                            },
                            _ => {
                                proof {
                                    assert(evs[i + 1] == events[i + 1].deep_view());
                                }
                            },
                        }
                    }
                    let ghost fvs = frames.deep_view();
                    let new_frame = Frame {
                        function: function.clone(),
                        frameno: *frameno,
                        source_info,
                    };
                    let ghost nfv = new_frame@;
                    frames.push(new_frame);
                    proof {
                        assert(frames.deep_view() =~= fvs.push(nfv));
                    }
                    i = i + step;
                },
                ParsedLine::BacktraceSource(_) => {
                    in_panic_info = false;
                    i = i + 1;
                },
            }
        }
        if frames.len() > 0 {
            let ghost st = AsmState {
                frames: frames.deep_view(),
                panic_info: panic_info.deep_view(),
                collecting: in_panic_info,
                done: backtraces.deep_view(),
            };
            backtraces.push(Backtrace { frames, panic_info });
            proof {
                assert(backtraces.deep_view() =~= st.done.push(
                    BacktraceV { frames: st.frames, panic_info: st.panic_info },
                ));
            }
        }
        backtraces
    }
}

} // verus!
