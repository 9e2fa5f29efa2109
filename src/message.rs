use vstd::prelude::*;
use crate::error::{Error, ErrorKind};

verus! {

/// A capability as it is written into a message.
#[derive(Debug)]
pub enum CapDescriptor {
    /// No capability: a null reference.
    Null,
    /// An object that the sender exports under this id.
    SenderHosted(u32),
    /// A promise that the sender exports under this id; a later `Resolve`
    /// says what it became.
    SenderPromise(u32),
    /// An object that the receiver exports under this id.
    ReceiverHosted(u32),
    /// A path into the result of a question that the receiver asked.
    ReceiverAnswer(u32, Vec<u16>),
    /// A capability held by a third vat; not supported at this level.
    ThirdPartyHosted,
}

/// What a call or a disembargo is addressed to.
#[derive(Debug)]
pub enum MessageTarget {
    /// An object that the receiver exports under this id.
    ImportedCap(u32),
    /// A path into the result of a question that the sender asked.
    PromisedAnswer(u32, Vec<u16>),
}

/// How a question was answered.
#[derive(Debug)]
pub enum ReturnKind {
    Results(Vec<CapDescriptor>),
    Exception(Error),
    Canceled,
    TakeFromOtherQuestion(u32),
    AcceptFromThirdParty,
}

/// What a promise export resolved to.
#[derive(Debug)]
pub enum Resolution {
    Cap(CapDescriptor),
    Exception(Error),
}

/// Why a disembargo was sent.
#[derive(Debug)]
pub enum DisembargoContext {
    SenderLoopback(u32),
    ReceiverLoopback(u32),
    Accept,
    Provide(u32),
}

/// The variant of a message, without its content.
#[derive(Clone, Copy, Debug, PartialEq, Eq, Structural)]
pub enum MessageKind {
    Unimplemented,
    Abort,
    Bootstrap,
    Call,
    Return,
    Finish,
    Resolve,
    Release,
    Disembargo,
    ObsoleteSave,
    ObsoleteDelete,
    Provide,
    Accept,
    Join,
}

/// A message of the protocol.
#[derive(Debug)]
pub enum Message {
    Unimplemented(MessageKind),
    Abort(Error),
    Bootstrap { question_id: u32 },
    Call {
        question_id: u32,
        target: MessageTarget,
        interface_id: u64,
        method_id: u16,
        caps: Vec<CapDescriptor>,
    },
    Return { answer_id: u32, release_param_caps: bool, which: ReturnKind },
    Finish { question_id: u32, release_result_caps: bool },
    Resolve { promise_id: u32, resolution: Resolution },
    Release { id: u32, reference_count: u32 },
    Disembargo { target: MessageTarget, context: DisembargoContext },
    ObsoleteSave,
    ObsoleteDelete,
    Provide,
    Accept,
    Join,
}

impl Message {
    pub open spec fn kind_of(&self) -> MessageKind {
        match self {
            Message::Unimplemented(_) => MessageKind::Unimplemented,
            Message::Abort(_) => MessageKind::Abort,
            Message::Bootstrap { .. } => MessageKind::Bootstrap,
            Message::Call { .. } => MessageKind::Call,
            Message::Return { .. } => MessageKind::Return,
            Message::Finish { .. } => MessageKind::Finish,
            Message::Resolve { .. } => MessageKind::Resolve,
            Message::Release { .. } => MessageKind::Release,
            Message::Disembargo { .. } => MessageKind::Disembargo,
            Message::ObsoleteSave => MessageKind::ObsoleteSave,
            Message::ObsoleteDelete => MessageKind::ObsoleteDelete,
            Message::Provide => MessageKind::Provide,
            Message::Accept => MessageKind::Accept,
            Message::Join => MessageKind::Join,
        }
    }

    /// The variant of this message.
    pub fn kind(&self) -> (r: MessageKind)
        ensures
            r == self.kind_of(),
    {
        match self {
            Message::Unimplemented(_) => MessageKind::Unimplemented,
            Message::Abort(_) => MessageKind::Abort,
            Message::Bootstrap { .. } => MessageKind::Bootstrap,
            Message::Call { .. } => MessageKind::Call,
            Message::Return { .. } => MessageKind::Return,
            Message::Finish { .. } => MessageKind::Finish,
            Message::Resolve { .. } => MessageKind::Resolve,
            Message::Release { .. } => MessageKind::Release,
            Message::Disembargo { .. } => MessageKind::Disembargo,
            Message::ObsoleteSave => MessageKind::ObsoleteSave,
            Message::ObsoleteDelete => MessageKind::ObsoleteDelete,
            Message::Provide => MessageKind::Provide,
            Message::Accept => MessageKind::Accept,
            Message::Join => MessageKind::Join,
        }
    }
}

/// A copy of a path of pointer indices.
pub fn copy_path(p: &Vec<u16>) -> (r: Vec<u16>)
    ensures
        r@ == p@,
{
    let mut r: Vec<u16> = Vec::new();
    let mut i: usize = 0;
    while i < p.len()
        invariant
            i <= p@.len(),
            r@ == p@.subrange(0, i as int),
        decreases p@.len() - i,
    {
        r.push(p[i]);
        i = i + 1;
        assert(r@ =~= p@.subrange(0, i as int));
    }
    assert(r@ =~= p@);
    r
}

/// Whether two paths are equal.
pub fn same_path(pa: &Vec<u16>, pb: &Vec<u16>) -> (r: bool)
    ensures
        r == (pa@ == pb@),
{
    if pa.len() != pb.len() {
        return false;
    }
    let mut i: usize = 0;
    while i < pa.len()
        invariant
            pa@.len() == pb@.len(),
            i <= pa@.len(),
            forall|k: int| 0 <= k < i ==> pa@[k] == pb@[k],
        decreases pa@.len() - i,
    {
        if pa[i] != pb[i] {
            assert(pa@[i as int] != pb@[i as int]);
            return false;
        }
        i = i + 1;
    }
    assert(pa@ =~= pb@);
    true
}

/// A capability as this vat holds it.
#[derive(Debug)]
pub enum Hook {
    /// A server of this vat, by its local id.
    Local(u64),
    /// A promise of this vat (a queued client), by its local id.
    Promise(u64),
    /// An object that the peer exports under this id.
    Import(u32),
    /// A path into the result of a question that this vat asked.
    Pipeline(u32, Vec<u16>),
    /// A hook on which every call fails with an error of this kind.
    Broken(ErrorKind),
}

/// The mathematical value of a hook.
pub enum HookModel {
    Local(u64),
    Promise(u64),
    Import(u32),
    Pipeline(u32, Seq<u16>),
    Broken(ErrorKind),
}

impl View for Hook {
    type V = HookModel;

    open spec fn view(&self) -> HookModel {
        match self {
            Hook::Local(s) => HookModel::Local(*s),
            Hook::Promise(p) => HookModel::Promise(*p),
            Hook::Import(i) => HookModel::Import(*i),
            Hook::Pipeline(q, path) => HookModel::Pipeline(*q, path@),
            Hook::Broken(k) => HookModel::Broken(*k),
        }
    }
}

impl Hook {
    /// A second handle on the same hook.
    pub fn duplicate(&self) -> (r: Hook)
        ensures
            r@ == self@,
    {
        match self {
            Hook::Local(s) => Hook::Local(*s),
            Hook::Promise(p) => Hook::Promise(*p),
            Hook::Import(i) => Hook::Import(*i),
            Hook::Pipeline(q, path) => Hook::Pipeline(*q, copy_path(path)),
            Hook::Broken(k) => Hook::Broken(*k),
        }
    }

    /// Whether two hooks are the same endpoint.
    pub fn same_as(&self, other: &Hook) -> (r: bool)
        ensures
            r == (self@ == other@),
    {
        match (self, other) {
            (Hook::Local(a), Hook::Local(b)) => *a == *b,
            (Hook::Promise(a), Hook::Promise(b)) => *a == *b,
            (Hook::Import(a), Hook::Import(b)) => *a == *b,
            (Hook::Pipeline(a, pa), Hook::Pipeline(b, pb)) => *a == *b && same_path(pa, pb),
            (Hook::Broken(a), Hook::Broken(b)) => *a == *b,
            _ => false,
        }
    }
}

} // verus!
