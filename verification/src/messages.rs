//! Structured diagnostics reconstructed from the engine's log: a message is
//! an error, warning, badbox or info record carrying the matched text, a set
//! of named detail fields and optional trailing context lines; a report
//! aggregates the messages together with per-kind counters.
use vstd::prelude::*;

verus! {

/// The four kinds of diagnostic record the log parser produces.
#[derive(Clone, Copy, Debug, PartialEq, Eq, Structural)]
pub enum MessageKind {
    Error,
    Warning,
    Badbox,
    Info,
}

/// Named detail fields extracted from a diagnostic line.  Only the fields
/// the recognized shapes can produce are present; an absent field is `None`.
#[derive(Debug)]
pub struct Details {
    pub type_tag: Option<String>,
    pub component: Option<String>,
    pub package: Option<String>,
    pub class: Option<String>,
    pub extra: Option<String>,
    pub message: Option<String>,
    pub direction: Option<String>,
    pub by: Option<String>,
    pub line: Option<String>,
    pub start_line: Option<String>,
    pub end_line: Option<String>,
}

/// Mathematical image of `Details`: each field as a character sequence.
pub ghost struct DetailsM {
    pub type_tag: Option<Seq<char>>,
    pub component: Option<Seq<char>>,
    pub package: Option<Seq<char>>,
    pub class: Option<Seq<char>>,
    pub extra: Option<Seq<char>>,
    pub message: Option<Seq<char>>,
    pub direction: Option<Seq<char>>,
    pub by: Option<Seq<char>>,
    pub line: Option<Seq<char>>,
    pub start_line: Option<Seq<char>>,
    pub end_line: Option<Seq<char>>,
}

pub open spec fn opt_view(o: Option<String>) -> Option<Seq<char>> {
    match o {
        Some(s) => Some(s@),
        None => None,
    }
}

impl View for Details {
    type V = DetailsM;

    open spec fn view(&self) -> DetailsM {
        DetailsM {
            type_tag: opt_view(self.type_tag),
            component: opt_view(self.component),
            package: opt_view(self.package),
            class: opt_view(self.class),
            extra: opt_view(self.extra),
            message: opt_view(self.message),
            direction: opt_view(self.direction),
            by: opt_view(self.by),
            line: opt_view(self.line),
            start_line: opt_view(self.start_line),
            end_line: opt_view(self.end_line),
        }
    }
}

/// A `DetailsM` with every field absent.
pub open spec fn empty_details() -> DetailsM {
    DetailsM {
        type_tag: None,
        component: None,
        package: None,
        class: None,
        extra: None,
        message: None,
        direction: None,
        by: None,
        line: None,
        start_line: None,
        end_line: None,
    }
}

/// The component name recorded in `d`, whichever key holds it.
pub open spec fn component_name_of(d: DetailsM) -> Option<Seq<char>> {
    if d.component is Some {
        d.component
    } else if d.package is Some {
        d.package
    } else {
        d.class
    }
}

/// The message detail after appending `add`: extends the present text, or
/// starts it when none was recorded yet.
pub open spec fn extended(old_msg: Option<Seq<char>>, add: Seq<char>) -> Option<Seq<char>> {
    match old_msg {
        Some(s) => Some(s + add),
        None => Some(add),
    }
}

pub open spec fn strs_view(v: Seq<String>) -> Seq<Seq<char>> {
    Seq::new(v.len(), |i: int| v[i]@)
}

fn clone_opt_string(o: &Option<String>) -> (r: Option<String>)
    ensures
        opt_view(r) == opt_view(*o),
{
    match o {
        Some(s) => Some(s.clone()),
        None => None,
    }
}

fn clone_strings(v: &Vec<String>) -> (r: Vec<String>)
    ensures
        strs_view(r@) == strs_view(v@),
{
    let mut r: Vec<String> = Vec::new();
    let mut i: usize = 0;
    while i < v.len()
        invariant
            0 <= i <= v@.len(),
            r@.len() == i,
            forall|k: int| 0 <= k < i ==> r@[k]@ == v@[k]@,
        decreases v@.len() - i,
    {
        r.push(v[i].clone());
        i += 1;
    }
    proof {
        assert(strs_view(r@) =~= strs_view(v@));
    }
    r
}

impl Clone for Details {
    fn clone(&self) -> (r: Self)
        ensures
            r@ == self@,
    {
        Details {
            type_tag: clone_opt_string(&self.type_tag),
            component: clone_opt_string(&self.component),
            package: clone_opt_string(&self.package),
            class: clone_opt_string(&self.class),
            extra: clone_opt_string(&self.extra),
            message: clone_opt_string(&self.message),
            direction: clone_opt_string(&self.direction),
            by: clone_opt_string(&self.by),
            line: clone_opt_string(&self.line),
            start_line: clone_opt_string(&self.start_line),
            end_line: clone_opt_string(&self.end_line),
        }
    }
}

/// The payload common to every message kind: the verbatim matched text, the
/// extracted detail fields, and raw lines captured right after the match.
#[derive(Debug)]
pub struct MessageInfo {
    pub full: String,
    pub details: Details,
    pub context_lines: Vec<String>,
}

pub ghost struct InfoM {
    pub full: Seq<char>,
    pub details: DetailsM,
    pub context: Seq<Seq<char>>,
}

impl View for MessageInfo {
    type V = InfoM;

    open spec fn view(&self) -> InfoM {
        InfoM { full: self.full@, details: self.details@, context: strs_view(self.context_lines@) }
    }
}

impl Clone for MessageInfo {
    fn clone(&self) -> (r: Self)
        ensures
            r@ == self@,
    {
        MessageInfo {
            full: self.full.clone(),
            details: self.details.clone(),
            context_lines: clone_strings(&self.context_lines),
        }
    }
}

impl MessageInfo {
    /// The component name this record carries, if any: the `component`,
    /// `package` or `class` detail, in that order of preference.
    pub fn get_component_name<'a>(&'a self) -> (r: Option<&'a String>)
        ensures
            r is Some <==> component_name_of(self.details@) is Some,
            r is Some ==> r->0@ == component_name_of(self.details@)->0,
    {
        match &self.details.component {
            Some(c) => Some(c),
            None => match &self.details.package {
                Some(p) => Some(p),
                None => match &self.details.class {
                    Some(c) => Some(c),
                    None => None,
                },
            },
        }
    }

    /// Records one raw line of trailing context.
    pub fn add_context(&mut self, line: String)
        ensures
            final(self)@ == (InfoM { context: old(self)@.context.push(line@), ..old(self)@ }),
    {
        self.context_lines.push(line);
        proof {
            assert(strs_view(self.context_lines@) =~= old(self)@.context.push(line@));
        }
    }

    /// Extends the `message` detail with `message`, starting it if absent.
    pub fn extend_message(&mut self, message: &str)
        ensures
            final(self)@ == (InfoM {
                details: DetailsM {
                    message: extended(old(self)@.details.message, message@),
                    ..old(self)@.details
                },
                ..old(self)@
            }),
    {
        let cur = self.details.message.take();
        match cur {
            Some(mut m) => {
                m.append(message);
                self.details.message = Some(m);
            },
            None => {
                self.details.message = Some(message.to_owned());
            },
        }
    }

    /// Extends the verbatim matched text with `add`.
    pub fn extend_full(&mut self, add: &str)
        ensures
            final(self)@ == (InfoM { full: old(self)@.full + add@, ..old(self)@ }),
    {
        self.full.append(add);
    }
}

/// One diagnostic record, tagged with its kind.
#[derive(Debug)]
pub enum Message {
    Error(MessageInfo),
    Warning(MessageInfo),
    Badbox(MessageInfo),
    Info(MessageInfo),
}

pub ghost struct MessageM {
    pub kind: MessageKind,
    pub info: InfoM,
}

impl View for Message {
    type V = MessageM;

    open spec fn view(&self) -> MessageM {
        match self {
            Message::Error(i) => MessageM { kind: MessageKind::Error, info: i@ },
            Message::Warning(i) => MessageM { kind: MessageKind::Warning, info: i@ },
            Message::Badbox(i) => MessageM { kind: MessageKind::Badbox, info: i@ },
            Message::Info(i) => MessageM { kind: MessageKind::Info, info: i@ },
        }
    }
}

impl Clone for Message {
    fn clone(&self) -> (r: Self)
        ensures
            r@ == self@,
    {
        match self {
            Message::Error(i) => Message::Error(i.clone()),
            Message::Warning(i) => Message::Warning(i.clone()),
            Message::Badbox(i) => Message::Badbox(i.clone()),
            Message::Info(i) => Message::Info(i.clone()),
        }
    }
}

/// The component name a message offers for continuation matching; a badbox
/// never offers one.
pub open spec fn msg_component(m: MessageM) -> Option<Seq<char>> {
    if m.kind is Badbox {
        None
    } else {
        component_name_of(m.info.details)
    }
}

impl Message {
    /// The component name this message carries; `None` for a badbox.
    pub fn get_component_name<'a>(&'a self) -> (r: Option<&'a String>)
        ensures
            r is Some <==> msg_component(self@) is Some,
            r is Some ==> r->0@ == msg_component(self@)->0,
    {
        match self {
            Message::Error(i) => i.get_component_name(),
            Message::Warning(i) => i.get_component_name(),
            Message::Info(i) => i.get_component_name(),
            Message::Badbox(_) => None,
        }
    }

    /// Extends the `message` detail; a badbox is never extended.
    pub fn extend_message(&mut self, message: &str)
        ensures
            final(self)@ == (if old(self)@.kind is Badbox {
                old(self)@
            } else {
                MessageM {
                    info: InfoM {
                        details: DetailsM {
                            message: extended(old(self)@.info.details.message, message@),
                            ..old(self)@.info.details
                        },
                        ..old(self)@.info
                    },
                    ..old(self)@
                }
            }),
    {
        match self {
            Message::Error(i) => i.extend_message(message),
            Message::Warning(i) => i.extend_message(message),
            Message::Info(i) => i.extend_message(message),
            Message::Badbox(_) => {},
        }
    }

    /// Extends the verbatim matched text; a badbox is never extended.
    pub fn extend_full(&mut self, add: &str)
        ensures
            final(self)@ == (if old(self)@.kind is Badbox {
                old(self)@
            } else {
                MessageM {
                    info: InfoM { full: old(self)@.info.full + add@, ..old(self)@.info },
                    ..old(self)@
                }
            }),
    {
        match self {
            Message::Error(i) => i.extend_full(add),
            Message::Warning(i) => i.extend_full(add),
            Message::Info(i) => i.extend_full(add),
            Message::Badbox(_) => {},
        }
    }

    /// Records one raw line of trailing context.
    pub fn add_context(&mut self, line: String)
        ensures
            final(self)@ == (MessageM {
                info: InfoM {
                    context: old(self)@.info.context.push(line@),
                    ..old(self)@.info
                },
                ..old(self)@
            }),
    {
        match self {
            Message::Error(i) => i.add_context(line),
            Message::Warning(i) => i.add_context(line),
            Message::Badbox(i) => i.add_context(line),
            Message::Info(i) => i.add_context(line),
        }
    }
}

pub open spec fn msgs_view(v: Seq<Message>) -> Seq<MessageM> {
    Seq::new(v.len(), |i: int| v[i]@)
}

/// The structured outcome of parsing one engine run's log: per-kind counters,
/// a count of unresolved-reference warnings, and the messages in the order
/// they were recognized.
#[derive(Debug)]
pub struct BuildReport {
    pub errors: usize,
    pub warnings: usize,
    pub badboxes: usize,
    pub info: usize,
    pub missing_references: usize,
    pub messages: Vec<Message>,
}

pub ghost struct ReportM {
    pub errors: int,
    pub warnings: int,
    pub badboxes: int,
    pub info: int,
    pub missing_references: int,
    pub messages: Seq<MessageM>,
}

impl View for BuildReport {
    type V = ReportM;

    open spec fn view(&self) -> ReportM {
        ReportM {
            errors: self.errors as int,
            warnings: self.warnings as int,
            badboxes: self.badboxes as int,
            info: self.info as int,
            missing_references: self.missing_references as int,
            messages: msgs_view(self.messages@),
        }
    }
}

impl Clone for BuildReport {
    fn clone(&self) -> (r: Self)
        ensures
            r@ == self@,
    {
        let mut msgs: Vec<Message> = Vec::new();
        let mut i: usize = 0;
        while i < self.messages.len()
            invariant
                0 <= i <= self.messages@.len(),
                msgs@.len() == i,
                forall|k: int| 0 <= k < i ==> msgs@[k]@ == self.messages@[k]@,
            decreases self.messages@.len() - i,
        {
            msgs.push(self.messages[i].clone());
            i += 1;
        }
        proof {
            assert(msgs_view(msgs@) =~= msgs_view(self.messages@));
        }
        BuildReport {
            errors: self.errors,
            warnings: self.warnings,
            badboxes: self.badboxes,
            info: self.info,
            missing_references: self.missing_references,
            messages: msgs,
        }
    }
}

/// How many messages of kind `k` stand in `ms`.
pub open spec fn count_kind(ms: Seq<MessageM>, k: MessageKind) -> int
    decreases ms.len(),
{
    if ms.len() == 0 {
        0
    } else {
        count_kind(ms.drop_last(), k) + if ms.last().kind == k {
            1int
        } else {
            0int
        }
    }
}

/// The counter of `r` that belongs to kind `k`.
pub open spec fn counter_of(r: ReportM, k: MessageKind) -> int {
    match k {
        MessageKind::Error => r.errors,
        MessageKind::Warning => r.warnings,
        MessageKind::Badbox => r.badboxes,
        MessageKind::Info => r.info,
    }
}

/// The report invariant: every counter equals the count of messages of the
/// matching kind.
pub open spec fn report_wf(r: ReportM) -> bool {
    &&& r.errors == count_kind(r.messages, MessageKind::Error)
    &&& r.warnings == count_kind(r.messages, MessageKind::Warning)
    &&& r.badboxes == count_kind(r.messages, MessageKind::Badbox)
    &&& r.info == count_kind(r.messages, MessageKind::Info)
    &&& 0 <= r.missing_references
}

pub proof fn lemma_count_kind_bounds(ms: Seq<MessageM>, k: MessageKind)
    ensures
        0 <= count_kind(ms, k) <= ms.len(),
    decreases ms.len(),
{
    if ms.len() > 0 {
        lemma_count_kind_bounds(ms.drop_last(), k);
    }
}

pub proof fn lemma_count_kind_push(ms: Seq<MessageM>, m: MessageM, k: MessageKind)
    ensures
        count_kind(ms.push(m), k) == count_kind(ms, k) + if m.kind == k {
            1int
        } else {
            0int
        },
{
    assert(ms.push(m).drop_last() =~= ms);
    assert(ms.push(m).last() == m);
}

/// Replacing a message with one of the same kind leaves every count as it was.
pub proof fn lemma_count_kind_update(ms: Seq<MessageM>, i: int, m: MessageM, k: MessageKind)
    requires
        0 <= i < ms.len(),
        m.kind == ms[i].kind,
    ensures
        count_kind(ms.update(i, m), k) == count_kind(ms, k),
    decreases ms.len(),
{
    if i == ms.len() - 1 {
        assert(ms.update(i, m).drop_last() =~= ms.drop_last());
        assert(ms.update(i, m).last() == m);
    } else {
        assert(ms.update(i, m).drop_last() =~= ms.drop_last().update(i, m));
        assert(ms.update(i, m).last() == ms.last());
        lemma_count_kind_update(ms.drop_last(), i, m, k);
    }
}

impl BuildReport {
    /// An empty report: no messages, every counter zero.
    pub fn new() -> (r: BuildReport)
        ensures
            r@.errors == 0,
            r@.warnings == 0,
            r@.badboxes == 0,
            r@.info == 0,
            r@.missing_references == 0,
            r@.messages.len() == 0,
            report_wf(r@),
    {
        let r = BuildReport {
            errors: 0,
            warnings: 0,
            badboxes: 0,
            info: 0,
            missing_references: 0,
            messages: Vec::new(),
        };
        proof {
            assert(msgs_view(r.messages@) =~= Seq::<MessageM>::empty());
        }
        r
    }
}

} // verus!
