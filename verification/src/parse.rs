//! The streaming log parser: consumes lines in order and grows a
//! `BuildReport`.  Each line is handled by the first matching rule of three:
//! a continuation of the last message (echoed component-name prefix), a
//! trailing context line for the last message, or a fresh classification.
use vstd::prelude::*;

use crate::grammar::classify;
use crate::grammar::classify_line;
use crate::grammar::indicates_missing_ref;
use crate::grammar::is_missing_ref;
use crate::messages::counter_of;
use crate::messages::extended;
use crate::messages::lemma_count_kind_bounds;
use crate::messages::lemma_count_kind_push;
use crate::messages::lemma_count_kind_update;
use crate::messages::msg_component;
use crate::messages::msgs_view;
use crate::messages::report_wf;
use crate::messages::strs_view;
use crate::messages::BuildReport;
use crate::messages::DetailsM;
use crate::messages::InfoM;
use crate::messages::Message;
use crate::messages::MessageInfo;
use crate::messages::MessageKind;
use crate::messages::MessageM;
use crate::messages::ReportM;
use crate::scan::has_prefix;
use crate::scan::prefix_at;
use crate::scan::scan_ws_end;
use crate::scan::trim_from;

verus! {

/// The parser's whole state: the report grown so far and how many trailing
/// context lines the last message may still collect.
pub ghost struct ParserM {
    pub report: ReportM,
    pub budget: int,
}

/// The line opens with the last message's component name echoed in
/// parentheses, so it continues that message.
pub open spec fn continuation_applies(m: MessageM, line: Seq<char>) -> bool {
    msg_component(m) is Some && prefix_at(line, 0, "("@ + msg_component(m)->0 + ") "@)
}

/// What a continuation line adds: the text after the echoed prefix, with
/// leading whitespace trimmed.
pub open spec fn continuation_text(m: MessageM, line: Seq<char>) -> Seq<char> {
    trim_from(line, ("("@ + msg_component(m)->0 + ") "@).len() as int)
}

/// A message after a continuation: the added text extends both the
/// `message` detail and the verbatim text.
pub open spec fn msg_continued(m: MessageM, add: Seq<char>) -> MessageM {
    MessageM {
        info: InfoM {
            full: m.info.full + add,
            details: DetailsM { message: extended(m.info.details.message, add), ..m.info.details },
            ..m.info
        },
        ..m
    }
}

/// A message after collecting one raw context line.
pub open spec fn msg_with_context(m: MessageM, line: Seq<char>) -> MessageM {
    MessageM { info: InfoM { context: m.info.context.push(line), ..m.info }, ..m }
}

/// How many trailing context lines a fresh message of kind `k` may collect:
/// errors print context after the match, the other kinds do not.
pub open spec fn budget_for(k: MessageKind) -> int {
    if k == MessageKind::Error {
        2
    } else {
        0
    }
}

/// The report after recording one freshly classified message: the message
/// is appended, its kind's counter rises by one, and a warning that signals
/// an unresolved reference also raises that count.
pub open spec fn bumped(r: ReportM, k: MessageKind, d: DetailsM, line: Seq<char>) -> ReportM {
    ReportM {
        errors: r.errors + if k == MessageKind::Error {
            1int
        } else {
            0int
        },
        warnings: r.warnings + if k == MessageKind::Warning {
            1int
        } else {
            0int
        },
        badboxes: r.badboxes + if k == MessageKind::Badbox {
            1int
        } else {
            0int
        },
        info: r.info + if k == MessageKind::Info {
            1int
        } else {
            0int
        },
        missing_references: r.missing_references + if indicates_missing_ref(k, d) {
            1int
        } else {
            0int
        },
        messages: r.messages.push(
            MessageM { kind: k, info: InfoM { full: line, details: d, context: Seq::empty() } },
        ),
    }
}

/// One step of the parser on one line, in rule priority order:
/// continuation, context collection, classification; an unrecognized line
/// changes nothing.
pub open spec fn step(p: ParserM, line: Seq<char>) -> ParserM {
    if p.report.messages.len() > 0 && continuation_applies(p.report.messages.last(), line) {
        let m = p.report.messages.last();
        let add = continuation_text(m, line);
        ParserM {
            report: ReportM {
                messages: p.report.messages.update(
                    p.report.messages.len() - 1,
                    msg_continued(m, add),
                ),
                ..p.report
            },
            budget: p.budget,
        }
    } else if p.budget > 0 && p.report.messages.len() > 0 {
        ParserM {
            report: ReportM {
                messages: p.report.messages.update(
                    p.report.messages.len() - 1,
                    msg_with_context(p.report.messages.last(), line),
                ),
                ..p.report
            },
            budget: p.budget - 1,
        }
    } else {
        match classify(line) {
            Some(kd) => ParserM { report: bumped(p.report, kd.0, kd.1, line), budget: budget_for(kd.0) },
            None => p,
        }
    }
}

/// The parser's invariant: the report invariant holds, the unresolved
/// count never exceeds the warning count, and a context budget is only
/// active while a message exists to receive the lines.
pub open spec fn parser_wf(p: ParserM) -> bool {
    &&& report_wf(p.report)
    &&& p.report.missing_references <= p.report.warnings
    &&& 0 <= p.budget
    &&& p.budget > 0 ==> p.report.messages.len() > 0
}

/// A fresh parser: empty report, no context budget.
pub open spec fn init_parser() -> ParserM {
    ParserM {
        report: ReportM {
            errors: 0,
            warnings: 0,
            badboxes: 0,
            info: 0,
            missing_references: 0,
            messages: Seq::empty(),
        },
        budget: 0,
    }
}

/// The parser run over a whole sequence of lines, first to last.
pub open spec fn run_lines(lines: Seq<Seq<char>>) -> ParserM
    decreases lines.len(),
{
    if lines.len() == 0 {
        init_parser()
    } else {
        step(run_lines(lines.drop_last()), lines.last())
    }
}

/// Law: every step keeps the report invariant — each counter always equals
/// the count of messages of its kind.
pub proof fn lemma_step_preserves_wf(p: ParserM, line: Seq<char>)
    requires
        parser_wf(p),
    ensures
        parser_wf(step(p, line)),
{
    let ms = p.report.messages;
    if ms.len() > 0 && continuation_applies(ms.last(), line) {
        let m2 = msg_continued(ms.last(), continuation_text(ms.last(), line));
        lemma_count_kind_update(ms, ms.len() - 1, m2, MessageKind::Error);
        lemma_count_kind_update(ms, ms.len() - 1, m2, MessageKind::Warning);
        lemma_count_kind_update(ms, ms.len() - 1, m2, MessageKind::Badbox);
        lemma_count_kind_update(ms, ms.len() - 1, m2, MessageKind::Info);
    } else if p.budget > 0 && ms.len() > 0 {
        let m2 = msg_with_context(ms.last(), line);
        lemma_count_kind_update(ms, ms.len() - 1, m2, MessageKind::Error);
        lemma_count_kind_update(ms, ms.len() - 1, m2, MessageKind::Warning);
        lemma_count_kind_update(ms, ms.len() - 1, m2, MessageKind::Badbox);
        lemma_count_kind_update(ms, ms.len() - 1, m2, MessageKind::Info);
    } else {
        match classify(line) {
            Some(kd) => {
                let m = MessageM {
                    kind: kd.0,
                    info: InfoM { full: line, details: kd.1, context: Seq::empty() },
                };
                lemma_count_kind_push(ms, m, MessageKind::Error);
                lemma_count_kind_push(ms, m, MessageKind::Warning);
                lemma_count_kind_push(ms, m, MessageKind::Badbox);
                lemma_count_kind_push(ms, m, MessageKind::Info);
            },
            None => {},
        }
    }
}

/// Law: a recognized single-line diagnostic, handled while no continuation
/// or context rule claims the line, appends exactly one message and raises
/// exactly the matching counter by one.
pub proof fn lemma_single_diagnostic_counts(p: ParserM, line: Seq<char>)
    requires
        parser_wf(p),
        classify(line) is Some,
        p.budget == 0,
        p.report.messages.len() > 0 ==> !continuation_applies(p.report.messages.last(), line),
    ensures
        step(p, line).report.messages.len() == p.report.messages.len() + 1,
        step(p, line).report.messages.last().kind == (classify(line)->0).0,
        forall|k: MessageKind|
            counter_of(step(p, line).report, k) == counter_of(p.report, k) + if k == (classify(
                line,
            )->0).0 {
                1int
            } else {
                0int
            },
{
}

/// Law: parsing exactly one recognized diagnostic line from a fresh parser
/// yields a report with one message and a single counter at one.
pub proof fn lemma_one_line_one_message(line: Seq<char>)
    requires
        classify(line) is Some,
    ensures
        step(init_parser(), line).report.messages.len() == 1,
        forall|k: MessageKind|
            counter_of(step(init_parser(), line).report, k) == if k == (classify(line)->0).0 {
                1int
            } else {
                0int
            },
{
    lemma_single_diagnostic_counts(init_parser(), line);
}

/// Law: a continuation line never changes a counter or the number of
/// messages; it strictly extends the last message's `message` detail and
/// verbatim text, and leaves every earlier message as it was.
pub proof fn lemma_continuation_extends(p: ParserM, line: Seq<char>)
    requires
        p.report.messages.len() > 0,
        continuation_applies(p.report.messages.last(), line),
    ensures
        step(p, line).report.errors == p.report.errors,
        step(p, line).report.warnings == p.report.warnings,
        step(p, line).report.badboxes == p.report.badboxes,
        step(p, line).report.info == p.report.info,
        step(p, line).report.missing_references == p.report.missing_references,
        step(p, line).report.messages.len() == p.report.messages.len(),
        step(p, line).report.messages.last().info.details.message == extended(
            p.report.messages.last().info.details.message,
            continuation_text(p.report.messages.last(), line),
        ),
        step(p, line).report.messages.last().info.full == p.report.messages.last().info.full
            + continuation_text(p.report.messages.last(), line),
        forall|i: int|
            0 <= i < p.report.messages.len() - 1 ==> step(p, line).report.messages[i]
                == p.report.messages[i],
{
}

/// The streaming parser: feed it lines in order, then take the report.
pub struct LogParser {
    pub report: BuildReport,
    pub context_budget: usize,
}

impl View for LogParser {
    type V = ParserM;

    open spec fn view(&self) -> ParserM {
        ParserM { report: self.report@, budget: self.context_budget as int }
    }
}

impl LogParser {
    /// A fresh parser over an empty report.
    pub fn new() -> (r: LogParser)
        ensures
            r@ == init_parser(),
            parser_wf(r@),
    {
        let r = LogParser { report: BuildReport::new(), context_budget: 0 };
        proof {
            assert(r@.report.messages =~= init_parser().report.messages);
        }
        r
    }

    /// Handles one line of engine output.
    pub fn process_line(&mut self, line: &str)
        requires
            parser_wf(old(self)@),
        ensures
            final(self)@ == step(old(self)@, line@),
            parser_wf(final(self)@),
    {
        proof {
            lemma_step_preserves_wf(old(self)@, line@);
        }
        let n_msgs = self.report.messages.len();
        if n_msgs > 0 {
            let mut pre_len: usize = 0;
            let mut is_cont = false;
            match self.report.messages[n_msgs - 1].get_component_name() {
                Some(comp) => {
                    let mut pat = "(".to_owned();
                    pat.append(comp.as_str());
                    pat.append(") ");
                    is_cont = has_prefix(line, 0, pat.as_str());
                    pre_len = pat.as_str().unicode_len();
                },
                None => {},
            }
            if is_cont {
                let ghost m_old = old(self)@.report.messages.last();
                let ghost add_spec = continuation_text(m_old, line@);
                let start = scan_ws_end(line, pre_len);
                let nn = line.unicode_len();
                let add = line.substring_char(start, nn);
                let mut m = self.report.messages.pop().unwrap();
                m.extend_message(add);
                m.extend_full(add);
                self.report.messages.push(m);
                proof {
                    assert(add@ == add_spec);
                    assert(msgs_view(self.report.messages@) =~= old(
                        self,
                    )@.report.messages.update(
                        old(self)@.report.messages.len() - 1,
                        msg_continued(m_old, add_spec),
                    ));
                }
                return ;
            }
        }
        if self.context_budget > 0 && n_msgs > 0 {
            let mut m = self.report.messages.pop().unwrap();
            m.add_context(line.to_owned());
            self.report.messages.push(m);
            self.context_budget = self.context_budget - 1;
            proof {
                assert(msgs_view(self.report.messages@) =~= old(self)@.report.messages.update(
                    old(self)@.report.messages.len() - 1,
                    msg_with_context(old(self)@.report.messages.last(), line@),
                ));
            }
            return ;
        }
        match classify_line(line) {
            Some((k, d)) => {
                let missing = is_missing_ref(k, &d);
                let info = MessageInfo {
                    full: line.to_owned(),
                    details: d,
                    context_lines: Vec::new(),
                };
                let msg = match k {
                    MessageKind::Error => Message::Error(info),
                    MessageKind::Warning => Message::Warning(info),
                    MessageKind::Badbox => Message::Badbox(info),
                    MessageKind::Info => Message::Info(info),
                };
                proof {
                    assert(strs_view(Seq::<String>::empty()) =~= Seq::<Seq<char>>::empty());
                    assert(msg@ == MessageM {
                        kind: k,
                        info: InfoM {
                            full: line@,
                            details: (classify(line@)->0).1,
                            context: Seq::empty(),
                        },
                    });
                    lemma_count_kind_bounds(old(self)@.report.messages, MessageKind::Error);
                    lemma_count_kind_bounds(old(self)@.report.messages, MessageKind::Warning);
                    lemma_count_kind_bounds(old(self)@.report.messages, MessageKind::Badbox);
                    lemma_count_kind_bounds(old(self)@.report.messages, MessageKind::Info);
                }
                self.report.messages.push(msg);
                let _grown = self.report.messages.len();
                match k {
                    MessageKind::Error => {
                        self.report.errors = self.report.errors + 1;
                        self.context_budget = 2;
                    },
                    MessageKind::Warning => {
                        self.report.warnings = self.report.warnings + 1;
                        if missing {
                            self.report.missing_references = self.report.missing_references + 1;
                        }
                        self.context_budget = 0;
                    },
                    MessageKind::Badbox => {
                        self.report.badboxes = self.report.badboxes + 1;
                        self.context_budget = 0;
                    },
                    MessageKind::Info => {
                        self.report.info = self.report.info + 1;
                        self.context_budget = 0;
                    },
                }
                proof {
                    assert(msgs_view(self.report.messages@) =~= old(self)@.report.messages.push(
                        msg@,
                    ));
                }
            },
            None => {},
        }
    }
}

/// Parses a whole captured log, given as its lines in order.
pub fn parse_log(lines: &Vec<String>) -> (r: BuildReport)
    ensures
        r@ == run_lines(strs_view(lines@)).report,
        report_wf(r@),
{
    let mut p = LogParser::new();
    proof {
        assert(strs_view(lines@).take(0) =~= Seq::<Seq<char>>::empty());
    }
    let mut i: usize = 0;
    while i < lines.len()
        invariant
            0 <= i <= lines@.len(),
            p@ == run_lines(strs_view(lines@).take(i as int)),
            parser_wf(p@),
        decreases lines@.len() - i,
    {
        p.process_line(lines[i].as_str());
        proof {
            let lv = strs_view(lines@);
            assert(lv.take(i + 1).drop_last() =~= lv.take(i as int));
            assert(lv.take(i + 1).last() == lv[i as int]);
        }
        i += 1;
    }
    proof {
        assert(strs_view(lines@).take(lines@.len() as int) =~= strs_view(lines@));
        lemma_step_preserves_wf_run(strs_view(lines@));
    }
    p.report
}

/// Law: a full run of the parser keeps the report invariant.
pub proof fn lemma_step_preserves_wf_run(lines: Seq<Seq<char>>)
    ensures
        parser_wf(run_lines(lines)),
    decreases lines.len(),
{
    if lines.len() == 0 {
    } else {
        lemma_step_preserves_wf_run(lines.drop_last());
        lemma_step_preserves_wf(run_lines(lines.drop_last()), lines.last());
    }
}

} // verus!
