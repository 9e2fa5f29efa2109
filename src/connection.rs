use vstd::prelude::*;
use std::collections::HashMap;
use crate::error::{Error, ErrorKind};
use crate::message::{CapDescriptor, DisembargoContext, Hook, HookModel, Message, MessageKind, MessageTarget, Resolution, ReturnKind, copy_path};
use crate::table::{IdTable, all_below_used};

verus! {

broadcast use vstd::std_specs::hash::group_hash_axioms;

/// A question that this vat asked and that is not retired yet.
pub struct Question {
    /// The exports that were written into the call's parameters.
    pub param_exports: Vec<u32>,
    /// No `Return` has come for it yet.
    pub awaiting_return: bool,
    /// Its `Finish` has been sent.
    pub finish_sent: bool,
}

/// A question that the peer asked, and this vat answers.
pub struct Answer {
    /// The call has not completed yet.
    pub active: bool,
    /// The peer's `Finish` has come.
    pub finish_received: bool,
    /// The exports that were written into the results.
    pub result_exports: Vec<u32>,
}

/// A capability that this vat has handed to the peer.
pub struct Export {
    pub hook: Hook,
    /// How many references the peer holds.
    pub refcount: u32,
}

/// A capability that the peer has handed to this vat.
#[derive(Clone, Copy)]
pub struct Import {
    /// How many references to it the peer has sent and this vat not yet released.
    pub refcount: u32,
    /// It is a promise, which a later `Resolve` settles.
    pub is_promise: bool,
}

/// Calls held back until a disembargo comes back, oldest first.
pub struct Embargo {
    pub held: Vec<u64>,
}

/// What an inbound call is addressed to, on this side.
pub enum CallTarget {
    Hook(Hook),
    /// A path into the result of a question that the peer asked.
    Answer(u32, Vec<u16>),
}

/// What the owner of a connection has to do after a step.
pub enum Action {
    /// Send the message to the peer.
    Send(Message),
    /// Deliver an inbound call to its target; its answer is `answer_id`.
    Deliver {
        answer_id: u32,
        target: CallTarget,
        interface_id: u64,
        method_id: u16,
        params: Vec<Hook>,
    },
    /// The question returned these capabilities.
    Fulfill { question_id: u32, caps: Vec<Hook> },
    /// The question failed.
    Reject { question_id: u32, error: Error },
    /// The question was canceled; it completes with nothing.
    Cancelled { question_id: u32 },
    /// The question's results are those of an answer of this vat.
    Redirect { question_id: u32, answer_id: u32 },
    /// The promise imported under `import_id` resolved to `hook`. Where
    /// `embargo` is set, calls made on it from now on are held under that
    /// embargo until it is lifted.
    ResolveImport { import_id: u32, hook: Hook, embargo: Option<u32> },
    /// An embargo was lifted: deliver these held calls, in this order.
    ReleaseHeld { calls: Vec<u64> },
    /// The connection is gone: these questions fail with `error`.
    Disconnected { failed_questions: Vec<u32>, error: Error },
}

/// The state of one connection: the four tables, the embargoes, and
/// whether it is still up.
pub struct ConnectionState {
    /// What a `Bootstrap` from the peer receives.
    pub bootstrap: Hook,
    pub questions: IdTable<Question>,
    pub answers: HashMap<u32, Answer>,
    pub exports: IdTable<Export>,
    pub imports: HashMap<u32, Import>,
    pub embargoes: IdTable<Embargo>,
    /// The error that ended the connection, once it has ended.
    pub disconnected: Option<Error>,
}

/// The outcome of a protocol error: the connection sent `Abort` and failed
/// every question that was pending.
pub open spec fn aborted(pre: ConnectionState, post: ConnectionState, r: Seq<Action>) -> bool {
    &&& post.is_down()
    &&& r.len() == 2
    &&& post.disconnected->Some_0.kind == ErrorKind::Disconnected
    &&& r[0] matches Action::Send(Message::Abort(e)) && e.kind == ErrorKind::Failed
        && e.description@ == post.disconnected->Some_0.description@
    &&& r[1] matches Action::Disconnected { failed_questions, error } && error@
        == post.disconnected->Some_0@ && failed_questions@.to_set() =~= pre.questions@.dom()
}


/// The hook that a descriptor received from the peer stands for.
pub open spec fn received_hook(pre: ConnectionState, d: CapDescriptor) -> HookModel {
    match d {
        CapDescriptor::Null => HookModel::Broken(ErrorKind::Failed),
        CapDescriptor::SenderHosted(e) => HookModel::Import(e),
        CapDescriptor::SenderPromise(e) => HookModel::Import(e),
        CapDescriptor::ReceiverHosted(e) => if pre.exports@.contains_key(e) {
            pre.exports@[e].hook@
        } else {
            HookModel::Broken(ErrorKind::Failed)
        },
        CapDescriptor::ReceiverAnswer(q, path) => if pre.questions@.contains_key(q) {
            HookModel::Pipeline(q, path@)
        } else {
            HookModel::Broken(ErrorKind::Failed)
        },
        CapDescriptor::ThirdPartyHosted => HookModel::Broken(ErrorKind::Unimplemented),
    }
}

/// The import that a descriptor received from the peer adds a reference to.
pub open spec fn import_of(d: CapDescriptor) -> Option<u32> {
    match d {
        CapDescriptor::SenderHosted(e) => Some(e),
        CapDescriptor::SenderPromise(e) => Some(e),
        _ => None,
    }
}

/// The import table after one more reference to `e`; the count stops at
/// its largest value.
pub open spec fn import_added(m: Map<u32, Import>, e: u32, promise: bool) -> Map<u32, Import> {
    let rc = if m.contains_key(e) { m[e].refcount } else { 0 };
    m.insert(e, Import { refcount: if rc == u32::MAX { rc } else { (rc + 1) as u32 }, is_promise: promise })
}

/// Export `k` of `pre` has lost one reference in `post`: gone if that was
/// its last, else held once less by the same hook.
pub open spec fn released_once(pre: Map<u32, Export>, post: Map<u32, Export>, k: u32) -> bool {
    if pre[k].refcount == 1 {
        !post.contains_key(k)
    } else {
        &&& post.contains_key(k)
        &&& post[k].refcount == pre[k].refcount - 1
        &&& post[k].hook@ == pre[k].hook@
    }
}

/// At least `n` identifiers are free in `m`.
pub open spec fn has_free<T>(m: Map<u32, T>, n: nat) -> bool {
    exists|fr: Set<u32>| fr.finite() && fr.len() >= n && forall|k: u32| #[trigger] fr.contains(k) ==> !m.contains_key(k)
}

/// The import table after receiving the descriptors `caps`, in order.
pub open spec fn imports_after(m: Map<u32, Import>, caps: Seq<CapDescriptor>) -> Map<u32, Import>
    decreases caps.len(),
{
    if caps.len() == 0 {
        m
    } else {
        let before = imports_after(m, caps.drop_last());
        match import_of(caps.last()) {
            Some(e) => import_added(before, e, caps.last() is SenderPromise),
            None => before,
        }
    }
}

/// `post` is `pre` with a new export row `e` for the hook `h`, held once.
pub open spec fn exported_fresh(pre: ConnectionState, post: ConnectionState, h: HookModel, e: u32) -> bool {
    &&& !pre.exports@.contains_key(e)
    &&& post.exports@.dom() =~= pre.exports@.dom().insert(e)
    &&& forall|k: u32| k != e && #[trigger] pre.exports@.contains_key(k) ==> post.exports@[k] == pre.exports@[k]
    &&& post.exports@[e].hook@ == h
    &&& post.exports@[e].refcount == 1
}

/// How a hook is written into a message: an import of this connection by
/// its id, a pipeline on a live question of this connection by its path,
/// anything else as a fresh export (a promise of this vat as a promise).
/// `post` is the state after the writing.
pub open spec fn written(pre: ConnectionState, post: ConnectionState, h: HookModel, d: CapDescriptor) -> bool {
    &&& post.same_but_exports(&pre)
    &&& if h is Import && pre.imports@.contains_key(h->Import_0) {
        d == CapDescriptor::ReceiverHosted(h->Import_0) && post.exports@ == pre.exports@
    } else if h is Pipeline && pre.questions@.contains_key(h->Pipeline_0) {
        (d matches CapDescriptor::ReceiverAnswer(q, p) && q == h->Pipeline_0 && p@ == h->Pipeline_1)
        && post.exports@ == pre.exports@
    } else if h is Promise {
        d matches CapDescriptor::SenderPromise(e) && exported_fresh(pre, post, h, e)
    } else {
        d matches CapDescriptor::SenderHosted(e) && exported_fresh(pre, post, h, e)
    }
}


/// `d` is how `h` was written into a message sent from `pre`, `post` being
/// the state after the whole message was written.
pub open spec fn describes(pre: ConnectionState, post: ConnectionState, h: HookModel, d: CapDescriptor) -> bool {
    if h is Import && pre.imports@.contains_key(h->Import_0) {
        d == CapDescriptor::ReceiverHosted(h->Import_0)
    } else if h is Pipeline && pre.questions@.contains_key(h->Pipeline_0) {
        d matches CapDescriptor::ReceiverAnswer(q, p) && q == h->Pipeline_0 && p@ == h->Pipeline_1
    } else {
        &&& (if h is Promise { d is SenderPromise } else { d is SenderHosted })
        &&& exported_id(d) matches Some(e) && !pre.exports@.contains_key(e) && post.exports@.contains_key(e)
            && post.exports@[e].hook@ == h && post.exports@[e].refcount == 1
    }
}

/// The export that a descriptor written by this vat names, if fresh.
pub open spec fn exported_id(d: CapDescriptor) -> Option<u32> {
    match d {
        CapDescriptor::SenderHosted(e) => Some(e),
        CapDescriptor::SenderPromise(e) => Some(e),
        _ => None,
    }
}

/// The wire target for a hook of this connection: an import by its id, a
/// pipeline on a live question by its path.
pub open spec fn targets(pre: ConnectionState, h: HookModel, t: MessageTarget) -> bool {
    if h is Import && pre.imports@.contains_key(h->Import_0) {
        t == MessageTarget::ImportedCap(h->Import_0)
    } else if h is Pipeline && pre.questions@.contains_key(h->Pipeline_0) {
        t matches MessageTarget::PromisedAnswer(q, p) && q == h->Pipeline_0 && p@ == h->Pipeline_1
    } else {
        false
    }
}

/// Every export row of `pre` is in `post` unchanged.
pub open spec fn exports_kept(pre: ConnectionState, post: ConnectionState) -> bool {
    forall|k: u32| #[trigger] pre.exports@.contains_key(k) ==> post.exports@.contains_key(k) && post.exports@[k]
        == pre.exports@[k]
}

/// A copy of a list of ids.
pub fn copy_ids(v: &Vec<u32>) -> (r: Vec<u32>)
    ensures
        r@ == v@,
{
    let mut r: Vec<u32> = Vec::new();
    let mut i: usize = 0;
    while i < v.len()
        invariant
            i <= v@.len(),
            r@ == v@.subrange(0, i as int),
        decreases v@.len() - i,
    {
        r.push(v[i]);
        i = i + 1;
        assert(r@ =~= v@.subrange(0, i as int));
    }
    assert(r@ =~= v@);
    r
}

/// `m` is the `Call` on `target` that `post` has sent from `pre`, as
/// question `q`, with the capabilities of `params` written into it.
pub open spec fn call_sent(
    pre: ConnectionState,
    post: ConnectionState,
    target: HookModel,
    interface_id: u64,
    method_id: u16,
    params: Seq<Hook>,
    q: u32,
    m: Message,
) -> bool {
        &&& pre.disconnected is None
        &&& !pre.questions@.contains_key(q)
        &&& all_below_used(pre.questions@, q)
        &&& post.questions@ == pre.questions@.insert(q, post.questions@[q])
        &&& post.questions@[q].awaiting_return
        &&& !post.questions@[q].finish_sent
        &&& post.answers == pre.answers
        &&& post.imports == pre.imports
        &&& post.embargoes == pre.embargoes
        &&& post.disconnected == pre.disconnected
        &&& exports_kept(pre, post)
        &&& m is Call
        &&& m->Call_question_id == q
        &&& m->Call_interface_id == interface_id
        &&& m->Call_method_id == method_id
        &&& targets(pre, target, m->Call_target)
        &&& m->Call_caps@.len() == params.len()
        &&& forall|i: int| 0 <= i < params.len() ==> describes(pre, post, (#[trigger] params[i])@, m->Call_caps@[i])
        &&& forall|k: u32| #[trigger] post.exports@.contains_key(k) ==> pre.exports@.contains_key(k)
            || post.questions@[q].param_exports@.contains(k)
        &&& forall|k: u32| #[trigger] post.questions@[q].param_exports@.contains(k)
            ==> !pre.exports@.contains_key(k) && post.exports@.contains_key(k)
}

/// The outcome of an inbound `Release` of `count` references to export `id`.
pub open spec fn released(pre: ConnectionState, post: ConnectionState, id: u32, count: u32, r: Seq<Action>) -> bool {
    &&& pre.disconnected is Some ==> post == pre && r.len() == 0
    &&& pre.disconnected is None ==> if pre.exports@.contains_key(id) && count
        <= pre.exports@[id].refcount {
        &&& r.len() == 0
        &&& post.same_but_exports(&pre)
        &&& pre.exports@[id].refcount == count ==> post.exports@ == pre.exports@.remove(id)
        &&& pre.exports@[id].refcount != count ==> {
            &&& post.exports@.dom() == pre.exports@.dom()
            &&& post.exports@[id].refcount == pre.exports@[id].refcount - count
            &&& post.exports@[id].hook@ == pre.exports@[id].hook@
            &&& forall|k: u32| k != id && #[trigger] pre.exports@.contains_key(k) ==> post.exports@[k]
                == pre.exports@[k]
        }
    } else {
        aborted(pre, post, r)
    }
}

/// The outcome of an inbound `Return` for question `question_id`.
pub open spec fn returned(pre: ConnectionState, post: ConnectionState, question_id: u32, release_param_caps: bool, which: ReturnKind, r: Seq<Action>) -> bool {
    &&& pre.disconnected is Some ==> post == pre && r.len() == 0
    &&& pre.disconnected is None && !(pre.questions@.contains_key(question_id)
        && pre.questions@[question_id].awaiting_return) ==> aborted(pre, post, r)
    &&& pre.disconnected is None && pre.questions@.contains_key(question_id)
        && pre.questions@[question_id].awaiting_return ==> {
        &&& post.disconnected is None
        &&& post.questions@ == pre.questions@.remove(question_id)
        &&& post.answers == pre.answers
        &&& post.embargoes == pre.embargoes
        &&& !release_param_caps ==> post.exports@ == pre.exports@
        &&& release_param_caps ==> forall|k: u32| #[trigger] pre.questions@[question_id].param_exports@.contains(k)
            && pre.exports@.contains_key(k) ==> released_once(pre.exports@, post.exports@, k)
        &&& forall|k: u32| #[trigger] pre.exports@.contains_key(k)
            && !pre.questions@[question_id].param_exports@.contains(k) ==> post.exports@.contains_key(k)
            && post.exports@[k] == pre.exports@[k]
        &&& post.bootstrap == pre.bootstrap
        &&& pre.questions@[question_id].finish_sent ==> r.len() == 0 && post.imports == pre.imports
        &&& !pre.questions@[question_id].finish_sent ==> {
            &&& r.len() == 2
            &&& r[1] == Action::Send(Message::Finish { question_id, release_result_caps: false })
            &&& match which {
                ReturnKind::Results(caps) => post.imports@ == imports_after(pre.imports@, caps@),
                _ => post.imports == pre.imports,
            }
            &&& match which {
                ReturnKind::Results(caps) => r[0] is Fulfill && r[0]->Fulfill_question_id == question_id
                    && r[0]->caps@.len() == caps@.len()
                    && forall|i: int| 0 <= i < caps@.len() ==> (#[trigger] r[0]->caps@[i])@
                        == received_hook(pre, caps@[i]),
                ReturnKind::Exception(e) => r[0] is Reject && r[0]->Reject_question_id == question_id
                    && r[0]->Reject_error@ == e@,
                ReturnKind::Canceled => r[0] == Action::Cancelled { question_id },
                ReturnKind::TakeFromOtherQuestion(a) => if pre.answers@.contains_key(a) {
                    r[0] == Action::Redirect { question_id, answer_id: a }
                } else {
                    r[0] is Reject && r[0]->Reject_question_id == question_id
                        && r[0]->Reject_error.kind == ErrorKind::Failed
                },
                ReturnKind::AcceptFromThirdParty => r[0] is Reject && r[0]->Reject_question_id == question_id
                    && r[0]->Reject_error.kind == ErrorKind::Unimplemented,
            }
        }
    }
}

/// The outcome of an inbound `Finish` for answer `question_id`.
pub open spec fn finished(pre: ConnectionState, post: ConnectionState, question_id: u32, release_result_caps: bool, r: Seq<Action>) -> bool {
    &&& pre.disconnected is Some ==> post == pre && r.len() == 0
    &&& pre.disconnected is None && !pre.answers@.contains_key(question_id) ==> aborted(
        pre,
        post,
        r,
    )
    &&& pre.disconnected is None && pre.answers@.contains_key(question_id) ==> {
        &&& r.len() == 0
        &&& post.disconnected is None
        &&& post.questions == pre.questions
        &&& post.imports == pre.imports
        &&& post.embargoes == pre.embargoes
        &&& post.bootstrap == pre.bootstrap
        &&& !release_result_caps ==> post.exports@ == pre.exports@
        &&& release_result_caps ==> forall|k: u32| #[trigger] pre.answers@[question_id].result_exports@.contains(k)
            && pre.exports@.contains_key(k) ==> released_once(pre.exports@, post.exports@, k)
        &&& forall|k: u32| #[trigger] pre.exports@.contains_key(k)
            && !pre.answers@[question_id].result_exports@.contains(k) ==> post.exports@.contains_key(k)
            && post.exports@[k] == pre.exports@[k]
        &&& if pre.answers@[question_id].active {
            &&& post.answers@.dom() == pre.answers@.dom()
            &&& post.answers@[question_id].active
            &&& post.answers@[question_id].finish_received
            &&& post.answers@.remove(question_id) == pre.answers@.remove(question_id)
        } else {
            post.answers@ == pre.answers@.remove(question_id)
        }
    }
}

/// The outcome of an inbound `Bootstrap` as question `question_id`.
pub open spec fn bootstrapped(pre: ConnectionState, post: ConnectionState, question_id: u32, r: Seq<Action>) -> bool {
    &&& pre.disconnected is Some ==> post == pre && r.len() == 0
    &&& pre.disconnected is None && pre.answers@.contains_key(question_id) ==> aborted(
        pre,
        post,
        r,
    )
    &&& pre.disconnected is None && !pre.answers@.contains_key(question_id) ==> {
        &&& post.disconnected is None
        &&& post.questions == pre.questions
        &&& post.imports == pre.imports
        &&& post.embargoes == pre.embargoes
        &&& post.bootstrap == pre.bootstrap
        &&& post.answers@ == pre.answers@.insert(question_id, post.answers@[question_id])
        &&& post.answers@[question_id].result_exports@ == match r[0]->Send_0->which {
            ReturnKind::Results(caps) => match exported_id(caps@[0]) {
                Some(e) => seq![e],
                None => Seq::<u32>::empty(),
            },
            _ => Seq::<u32>::empty(),
        }
        &&& !post.answers@[question_id].active
        &&& !post.answers@[question_id].finish_received
        &&& exports_kept(pre, post)
        &&& r.len() == 1
        &&& r[0] is Send && r[0]->Send_0 is Return && r[0]->Send_0->answer_id == question_id
        &&& (r[0]->Send_0->which matches ReturnKind::Results(caps) ==> caps@.len() == 1 && describes(
            pre,
            post,
            pre.bootstrap@,
            caps@[0],
        ))
        &&& (r[0]->Send_0->which is Results || forall|k: u32| #[trigger] pre.exports@.contains_key(k))
    }
}

/// The outcome of an inbound `Call` as question `question_id`.
pub open spec fn called(pre: ConnectionState, post: ConnectionState, question_id: u32, target: MessageTarget, interface_id: u64, method_id: u16, caps: Vec<CapDescriptor>, r: Seq<Action>) -> bool {
    &&& pre.disconnected is Some ==> post == pre && r.len() == 0
    &&& pre.disconnected is None && (pre.answers@.contains_key(question_id) || match target {
        MessageTarget::ImportedCap(e) => !pre.exports@.contains_key(e),
        MessageTarget::PromisedAnswer(a, _) => !pre.answers@.contains_key(a),
    }) ==> aborted(pre, post, r)
    &&& pre.disconnected is None && !pre.answers@.contains_key(question_id) && match target {
        MessageTarget::ImportedCap(e) => pre.exports@.contains_key(e),
        MessageTarget::PromisedAnswer(a, _) => pre.answers@.contains_key(a),
    } ==> {
        &&& post.disconnected is None
        &&& post.questions == pre.questions
        &&& post.exports == pre.exports
        &&& post.embargoes == pre.embargoes
        &&& post.bootstrap == pre.bootstrap
        &&& post.imports@ == imports_after(pre.imports@, caps@)
        &&& post.answers@ == pre.answers@.insert(question_id, post.answers@[question_id])
        &&& post.answers@[question_id].active
        &&& !post.answers@[question_id].finish_received
        &&& r.len() == 1
        &&& r[0] is Deliver
        &&& r[0]->Deliver_answer_id == question_id
        &&& r[0]->Deliver_interface_id == interface_id
        &&& r[0]->Deliver_method_id == method_id
        &&& match target {
            MessageTarget::ImportedCap(e) => r[0]->Deliver_target matches CallTarget::Hook(h) && h@
                == pre.exports@[e].hook@,
            MessageTarget::PromisedAnswer(a, path) => r[0]->Deliver_target matches CallTarget::Answer(
                a2,
                p,
            ) && a2 == a && p@ == path@,
        }
        &&& r[0]->Deliver_params@.len() == caps@.len()
        &&& forall|i: int| 0 <= i < caps@.len() ==> (#[trigger] r[0]->Deliver_params@[i])@ == received_hook(
            pre,
            caps@[i],
        )
    }
}

/// The outcome of an inbound `Resolve` for the promise imported as `promise_id`.
pub open spec fn resolved(pre: ConnectionState, post: ConnectionState, promise_id: u32, resolution: Resolution, r: Seq<Action>) -> bool {
    &&& pre.disconnected is Some ==> post == pre && r.len() == 0
    &&& pre.disconnected is None && pre.imports@.contains_key(promise_id) ==> {
        &&& post.bootstrap == pre.bootstrap
        &&& post.questions == pre.questions
        &&& post.answers == pre.answers
        &&& post.exports == pre.exports
        &&& post.disconnected == pre.disconnected
        &&& r[0] is ResolveImport && r[0]->import_id == promise_id
        &&& if resolution matches Resolution::Cap(CapDescriptor::ReceiverHosted(_)) {
            &&& r.len() == (if r[0]->embargo is Some { 2int } else { 1int })
            &&& r[0]->embargo matches Some(e) ==> {
                &&& !pre.embargoes@.contains_key(e)
                &&& post.embargoes@ == pre.embargoes@.insert(e, post.embargoes@[e])
                &&& post.embargoes@[e].held@.len() == 0
                &&& r[1] == Action::Send(
                    Message::Disembargo {
                        target: MessageTarget::ImportedCap(promise_id),
                        context: DisembargoContext::SenderLoopback(e),
                    },
                )
            }
            &&& r[0]->embargo is None ==> post.embargoes == pre.embargoes && forall|k: u32| #[trigger]
                pre.embargoes@.contains_key(k)
        } else {
            r.len() == 1 && r[0]->embargo is None && post.embargoes == pre.embargoes
        }
        &&& match resolution {
            Resolution::Cap(d) => r[0]->hook@ == received_hook(pre, d) && post.imports@
                == match import_of(d) {
                Some(e) => import_added(pre.imports@, e, d is SenderPromise),
                None => pre.imports@,
            },
            Resolution::Exception(err) => r[0]->hook@ == HookModel::Broken(err.kind) && post.imports@
                == pre.imports@,
        }
    }
    &&& pre.disconnected is None && !pre.imports@.contains_key(promise_id) ==> {
        &&& post == pre
        &&& match resolution {
            Resolution::Cap(d) => match import_of(d) {
                Some(e) => r == seq![Action::Send(Message::Release { id: e, reference_count: 1 })],
                None => r.len() == 0,
            },
            Resolution::Exception(_) => r.len() == 0,
        }
    }
}

/// The outcome of an inbound `Disembargo`.
pub open spec fn disembargoed(pre: ConnectionState, post: ConnectionState, target: MessageTarget, context: DisembargoContext, r: Seq<Action>) -> bool {
    &&& pre.disconnected is Some ==> post == pre && r.len() == 0
    &&& pre.disconnected is None ==> match context {
        DisembargoContext::SenderLoopback(e) => post == pre && r == seq![
            Action::Send(Message::Disembargo { target, context: DisembargoContext::ReceiverLoopback(e) }),
        ],
        DisembargoContext::ReceiverLoopback(e) => if pre.embargoes@.contains_key(e) {
            &&& post.embargoes@ == pre.embargoes@.remove(e)
            &&& post.questions == pre.questions
            &&& post.answers == pre.answers
            &&& post.exports == pre.exports
            &&& post.imports == pre.imports
            &&& post.disconnected == pre.disconnected
            &&& r.len() == 1
            &&& r[0] is ReleaseHeld && r[0]->calls@ == pre.embargoes@[e].held@
        } else {
            aborted(pre, post, r)
        },
        _ => post == pre && r == seq![Action::Send(Message::Unimplemented(MessageKind::Disembargo))],
    }
}

/// The outcome of dispatching the inbound message `msg`.
pub open spec fn handled(pre: ConnectionState, post: ConnectionState, msg: Message, r: Seq<Action>) -> bool {
    match msg {
        Message::Release { id, reference_count } => released(pre, post, id, reference_count, r),
        Message::Return { answer_id, release_param_caps, which } => returned(
            pre,
            post,
            answer_id,
            release_param_caps,
            which,
            r,
        ),
        Message::Finish { question_id, release_result_caps } => finished(
            pre,
            post,
            question_id,
            release_result_caps,
            r,
        ),
        Message::Bootstrap { question_id } => bootstrapped(pre, post, question_id, r),
        Message::Call { question_id, target, interface_id, method_id, caps } => called(
            pre,
            post,
            question_id,
            target,
            interface_id,
            method_id,
            caps,
            r,
        ),
        Message::Resolve { promise_id, resolution } => resolved(pre, post, promise_id, resolution, r),
        Message::Disembargo { target, context } => disembargoed(pre, post, target, context, r),
        Message::Abort(e) => if pre.disconnected is None {
            &&& post.is_down()
            &&& post.disconnected->Some_0.kind == ErrorKind::Disconnected
            &&& post.disconnected->Some_0.description@ == e.description@
            &&& r.len() == 1
            &&& r[0] is Disconnected
            &&& r[0]->Disconnected_error@ == post.disconnected->Some_0@
            &&& r[0]->failed_questions@.to_set() =~= pre.questions@.dom()
        } else {
            post == pre && r.len() == 0
        },
        Message::Unimplemented(_) => post == pre && r.len() == 0,
        _ => {
            &&& post == pre
            &&& pre.disconnected is Some ==> r.len() == 0
            &&& pre.disconnected is None ==> r == seq![Action::Send(Message::Unimplemented(msg.kind_of()))]
        },
    }
}

/// How many of the actions send `Finish` for question `q`.
pub open spec fn finish_count(r: Seq<Action>, q: u32) -> nat
    decreases r.len(),
{
    if r.len() == 0 {
        0
    } else {
        finish_count(r.drop_last(), q) + if r.last() matches Action::Send(Message::Finish { question_id, .. })
            && question_id == q {
            1nat
        } else {
            0nat
        }
    }
}

/// One `Return` and one `Finish` per question: the `Return` for a pending
/// question retires it and, with it, sends the question's `Finish` unless
/// that went already; a second `Return` for the same question ends the
/// connection.
pub proof fn lemma_one_return_one_finish(
    s0: ConnectionState,
    s1: ConnectionState,
    s2: ConnectionState,
    q: u32,
    release1: bool,
    which1: ReturnKind,
    r1: Seq<Action>,
    release2: bool,
    which2: ReturnKind,
    r2: Seq<Action>,
)
    requires
        s0.wf(),
        s0.disconnected is None,
        s0.questions@.contains_key(q),
        s0.questions@[q].awaiting_return,
        returned(s0, s1, q, release1, which1, r1),
        returned(s1, s2, q, release2, which2, r2),
    ensures
        !s1.questions@.contains_key(q),
        finish_count(r1, q) == if s0.questions@[q].finish_sent { 0nat } else { 1nat },
        aborted(s1, s2, r2),
{
    reveal_with_fuel(finish_count, 3);
    if !s0.questions@[q].finish_sent {
        assert(r1[0] !is Send);
        assert(r1.drop_last() =~= seq![r1[0]]);
        assert(r1.drop_last().drop_last() =~= Seq::<Action>::empty());
    }
}

/// Disembargo ordering: the calls held under embargo `e` are handed on
/// only when the peer echoes `e` back, all of them and in the order they
/// were held; any other `Disembargo` leaves them held.
pub proof fn lemma_held_until_echo(
    s1: ConnectionState,
    s2: ConnectionState,
    e: u32,
    target: MessageTarget,
    context: DisembargoContext,
    r: Seq<Action>,
)
    requires
        s1.wf(),
        s1.disconnected is None,
        s1.embargoes@.contains_key(e),
        disembargoed(s1, s2, target, context, r),
    ensures
        context == DisembargoContext::ReceiverLoopback(e) ==> {
            &&& !s2.embargoes@.contains_key(e)
            &&& r.len() == 1
            &&& r[0] is ReleaseHeld
            &&& r[0]->calls@ == s1.embargoes@[e].held@
        },
        context != DisembargoContext::ReceiverLoopback(e) && s2.disconnected is None ==> {
            &&& s2.embargoes@.contains_key(e)
            &&& s2.embargoes@[e] == s1.embargoes@[e]
        },
{
}

/// The outcome of asking the peer to drop question `question_id`.
pub open spec fn finish_requested(pre: ConnectionState, post: ConnectionState, question_id: u32, r: Seq<Action>) -> bool {
    &&& post.answers == pre.answers
    &&& post.exports == pre.exports
    &&& post.imports == pre.imports
    &&& post.disconnected == pre.disconnected
    &&& if pre.disconnected is None && pre.questions@.contains_key(question_id)
        && !pre.questions@[question_id].finish_sent {
        &&& r == seq![Action::Send(Message::Finish { question_id, release_result_caps: true })]
        &&& if pre.questions@[question_id].awaiting_return {
            &&& post.questions@.contains_key(question_id)
            &&& post.questions@[question_id].finish_sent
            &&& post.questions@[question_id].awaiting_return
            &&& post.questions@.remove(question_id) == pre.questions@.remove(question_id)
        } else {
            post.questions@ == pre.questions@.remove(question_id)
        }
    } else {
        r.len() == 0 && post.questions@ == pre.questions@
    }
}

/// A question whose result is dropped before its `Return` sends its
/// `Finish` once: on the drop, and not again when the `Return` comes, which
/// then fulfils nothing and imports nothing.
pub proof fn lemma_cancelled_question_finishes_once(
    s0: ConnectionState,
    s1: ConnectionState,
    s2: ConnectionState,
    q: u32,
    r1: Seq<Action>,
    release: bool,
    which: ReturnKind,
    r2: Seq<Action>,
)
    requires
        s0.wf(),
        s0.disconnected is None,
        s0.questions@.contains_key(q),
        s0.questions@[q].awaiting_return,
        !s0.questions@[q].finish_sent,
        finish_requested(s0, s1, q, r1),
        returned(s1, s2, q, release, which, r2),
    ensures
        finish_count(r1, q) + finish_count(r2, q) == 1,
        r2.len() == 0,
        s2.imports == s1.imports,
        !s2.questions@.contains_key(q),
{
    reveal_with_fuel(finish_count, 3);
    assert(r1.drop_last() =~= Seq::<Action>::empty());
}

/// Round trip: a hook of this vat written into a message as a fresh export
/// and later received back from the peer as that export is the same hook.
pub proof fn lemma_round_trip(pre: ConnectionState, post: ConnectionState, h: HookModel, d: CapDescriptor)
    requires
        written(pre, post, h, d),
        h is Local || h is Promise,
    ensures
        d is SenderHosted || d is SenderPromise,
        d matches CapDescriptor::SenderHosted(e) ==> received_hook(post, CapDescriptor::ReceiverHosted(e)) == h,
        d matches CapDescriptor::SenderPromise(e) ==> received_hook(post, CapDescriptor::ReceiverHosted(e)) == h,
{
}

impl ConnectionState {
    pub open spec fn wf(&self) -> bool {
        &&& self.questions.wf()
        &&& self.exports.wf()
        &&& self.embargoes.wf()
        &&& self.disconnected is Some ==> self.is_down()
        &&& forall|k: u32| #[trigger] self.exports@.contains_key(k) ==> self.exports@[k].refcount >= 1
        &&& forall|q: u32| #[trigger] self.questions@.contains_key(q) ==> self.questions@[q].param_exports@.no_duplicates()
        &&& forall|a: u32| #[trigger] self.answers@.contains_key(a) ==> self.answers@[a].result_exports@.no_duplicates()
    }

    /// Disconnected, with every table empty.
    pub open spec fn is_down(&self) -> bool {
        &&& self.disconnected is Some
        &&& self.questions@ == Map::<u32, Question>::empty()
        &&& self.answers@ == Map::<u32, Answer>::empty()
        &&& self.exports@ == Map::<u32, Export>::empty()
        &&& self.imports@ == Map::<u32, Import>::empty()
        &&& self.embargoes@ == Map::<u32, Embargo>::empty()
    }

    /// Everything but the export table is as in `other`.
    pub open spec fn same_but_exports(&self, other: &ConnectionState) -> bool {
        &&& self.bootstrap == other.bootstrap
        &&& self.questions == other.questions
        &&& self.answers == other.answers
        &&& self.imports == other.imports
        &&& self.embargoes == other.embargoes
        &&& self.disconnected == other.disconnected
    }

    /// Everything but the import table is as in `other`.
    pub open spec fn same_but_imports(&self, other: &ConnectionState) -> bool {
        &&& self.bootstrap == other.bootstrap
        &&& self.questions == other.questions
        &&& self.answers == other.answers
        &&& self.exports == other.exports
        &&& self.embargoes == other.embargoes
        &&& self.disconnected == other.disconnected
    }

    /// A connection that has just come up, offering `bootstrap` to the peer.
    pub fn new(bootstrap: Hook) -> (r: ConnectionState)
        ensures
            r.wf(),
            r.disconnected is None,
            r.bootstrap == bootstrap,
            r.questions@ == Map::<u32, Question>::empty(),
            r.answers@ == Map::<u32, Answer>::empty(),
            r.exports@ == Map::<u32, Export>::empty(),
            r.imports@ == Map::<u32, Import>::empty(),
            r.embargoes@ == Map::<u32, Embargo>::empty(),
    {
        ConnectionState {
            bootstrap,
            questions: IdTable::new(),
            answers: HashMap::new(),
            exports: IdTable::new(),
            imports: HashMap::new(),
            embargoes: IdTable::new(),
            disconnected: None,
        }
    }

    pub fn is_disconnected(&self) -> (r: bool)
        ensures
            r == self.disconnected is Some,
    {
        self.disconnected.is_some()
    }

    /// Ends the connection with `err`: every table is drained and every
    /// pending question fails. Where the cause is on this side, the peer is
    /// told by an `Abort`.
    pub fn disconnect(&mut self, err: Error, local: bool) -> (r: Vec<Action>)
        requires
            old(self).wf(),
            old(self).disconnected is None,
        ensures
            final(self).wf(),
            final(self).is_down(),
            final(self).disconnected->Some_0.kind == ErrorKind::Disconnected,
            final(self).disconnected->Some_0.description@ == err.description@,
            final(self).bootstrap == old(self).bootstrap,
            r@.len() == if local { 2int } else { 1int },
            local ==> (r@[0] matches Action::Send(Message::Abort(e)) && e@ == err@),
            r@.last() matches Action::Disconnected { failed_questions, error } && error@
                == final(self).disconnected->Some_0@ && failed_questions@.to_set() =~= old(self).questions@.dom(),
    {
        let failed = self.questions.ids();
        proof {
            assert forall|id: u32| failed@.to_set().contains(id) <==> old(self).questions@.dom().contains(id) by {
                if failed@.to_set().contains(id) {
                    let k = choose|k: int| 0 <= k < failed@.len() && failed@[k] == id;
                    assert(self.questions@.contains_key(failed@[k]));
                }
            }
        }
        let recorded = Error::disconnected(err.description.clone());
        let mut r: Vec<Action> = Vec::new();
        if local {
            r.push(Action::Send(Message::Abort(err)));
        }
        r.push(Action::Disconnected { failed_questions: failed, error: recorded.duplicate() });
        self.questions.clear();
        self.answers.clear();
        self.exports.clear();
        self.imports.clear();
        self.embargoes.clear();
        self.disconnected = Some(recorded);
        r
    }

    /// Ends the connection over a message that breaks the protocol.
    fn protocol_error(&mut self, description: &str) -> (r: Vec<Action>)
        requires
            old(self).wf(),
            old(self).disconnected is None,
        ensures
            final(self).wf(),
            final(self).bootstrap == old(self).bootstrap,
            aborted(*old(self), *final(self), r@),
    {
        self.disconnect(Error::failed(description.to_owned()), true)
    }

    /// Takes `count` references off an export; the row goes when none is
    /// left. Returns false, changing nothing, where the export is unknown or
    /// holds fewer references.
    pub fn release_export(&mut self, id: u32, count: u32) -> (r: bool)
        requires
            old(self).wf(),
        ensures
            final(self).wf(),
            final(self).same_but_exports(old(self)),
            r == (old(self).exports@.contains_key(id) && count <= old(self).exports@[id].refcount),
            r ==> (if old(self).exports@[id].refcount == count {
                final(self).exports@ == old(self).exports@.remove(id)
            } else {
                final(self).exports@.dom() == old(self).exports@.dom()
                && (forall|k: u32| k != id && #[trigger] old(self).exports@.contains_key(k) ==> final(self).exports@[k] == old(self).exports@[k])
                && final(self).exports@[id].refcount == old(self).exports@[id].refcount - count
                && final(self).exports@[id].hook@ == old(self).exports@[id].hook@
            }),
            !r ==> final(self).exports@ == old(self).exports@,
    {
        let (rc, hook) = match self.exports.get(id) {
            Some(e) => (e.refcount, e.hook.duplicate()),
            None => {
                return false;
            },
        };
        if count > rc {
            return false;
        }
        if rc == count {
            self.exports.remove(id);
        } else {
            self.exports.replace(id, Export { hook, refcount: rc - count });
        }
        true
    }


    /// Turns a descriptor received from the peer into a hook, adding a
    /// reference to the import it names, if any.
    pub fn receive_cap(&mut self, d: &CapDescriptor) -> (r: Hook)
        requires
            old(self).wf(),
            old(self).disconnected is None,
        ensures
            final(self).wf(),
            final(self).same_but_imports(old(self)),
            r@ == received_hook(*old(self), *d),
            final(self).imports@ == match import_of(*d) {
                Some(e) => import_added(old(self).imports@, e, d is SenderPromise),
                None => old(self).imports@,
            },
    {
        match d {
            CapDescriptor::Null => Hook::Broken(ErrorKind::Failed),
            CapDescriptor::SenderHosted(e) => {
                self.add_import(*e, false);
                Hook::Import(*e)
            },
            CapDescriptor::SenderPromise(e) => {
                self.add_import(*e, true);
                Hook::Import(*e)
            },
            CapDescriptor::ReceiverHosted(e) => match self.exports.get(*e) {
                Some(row) => row.hook.duplicate(),
                None => Hook::Broken(ErrorKind::Failed),
            },
            CapDescriptor::ReceiverAnswer(q, path) => if self.questions.contains(*q) {
                Hook::Pipeline(*q, copy_path(path))
            } else {
                Hook::Broken(ErrorKind::Failed)
            },
            CapDescriptor::ThirdPartyHosted => Hook::Broken(ErrorKind::Unimplemented),
        }
    }

    fn add_import(&mut self, e: u32, promise: bool)
        requires
            old(self).wf(),
            old(self).disconnected is None,
        ensures
            final(self).wf(),
            final(self).same_but_imports(old(self)),
            final(self).imports@ == import_added(old(self).imports@, e, promise),
    {
        let rc: u32 = match self.imports.get(&e) {
            Some(row) => row.refcount,
            None => 0,
        };
        self.imports.insert(e, Import { refcount: rc.saturating_add(1), is_promise: promise });
    }

    /// Turns the descriptors of a message into hooks, in order.
    pub fn receive_caps(&mut self, caps: &Vec<CapDescriptor>) -> (r: Vec<Hook>)
        requires
            old(self).wf(),
            old(self).disconnected is None,
        ensures
            final(self).wf(),
            final(self).same_but_imports(old(self)),
            r@.len() == caps@.len(),
            forall|i: int| 0 <= i < caps@.len() ==> (#[trigger] r@[i])@ == received_hook(*old(self), caps@[i]),
            final(self).imports@ == imports_after(old(self).imports@, caps@),
            forall|e: u32| #[trigger] final(self).imports@.contains_key(e) <==> (old(self).imports@.contains_key(e)
                || exists|i: int| 0 <= i < caps@.len() && import_of(#[trigger] caps@[i]) == Some(e)),
    {
        let mut r: Vec<Hook> = Vec::new();
        let mut i: usize = 0;
        while i < caps.len()
            invariant
                self.wf(),
                self.disconnected is None,
                self.same_but_imports(old(self)),
                i <= caps@.len(),
                r@.len() == i,
                forall|k: int| 0 <= k < i ==> (#[trigger] r@[k])@ == received_hook(*old(self), caps@[k]),
                self.imports@ == imports_after(old(self).imports@, caps@.subrange(0, i as int)),
                forall|e: u32| #[trigger] self.imports@.contains_key(e) <==> (old(self).imports@.contains_key(e)
                    || exists|k: int| 0 <= k < i && import_of(#[trigger] caps@[k]) == Some(e)),
            decreases caps@.len() - i,
        {
            let ghost before = self.imports@;
            let h = self.receive_cap(&caps[i]);
            r.push(h);
            proof {
                assert(caps@.subrange(0, i + 1).drop_last() =~= caps@.subrange(0, i as int));
                assert(caps@.subrange(0, i + 1).last() == caps@[i as int]);
                assert forall|e: u32| #[trigger] self.imports@.contains_key(e) <==> (old(self).imports@.contains_key(e)
                    || exists|k: int| 0 <= k < i + 1 && import_of(#[trigger] caps@[k]) == Some(e)) by {
                    if import_of(caps@[i as int]) == Some(e) {
                        assert(self.imports@.contains_key(e));
                    }
                    if exists|k: int| 0 <= k < i + 1 && import_of(#[trigger] caps@[k]) == Some(e) {
                        let k = choose|k: int| 0 <= k < i + 1 && import_of(#[trigger] caps@[k]) == Some(e);
                        if k < i {
                            assert(before.contains_key(e));
                        }
                    }
                }
            }
            i = i + 1;
        }
        assert(caps@.subrange(0, caps@.len() as int) =~= caps@);
        r
    }

    /// Writes a hook into an outgoing message. `None`, changing nothing,
    /// where the hook would need a fresh export and every export id is taken.
    pub fn write_descriptor(&mut self, h: &Hook) -> (r: Option<CapDescriptor>)
        requires
            old(self).wf(),
            old(self).disconnected is None,
        ensures
            final(self).wf(),
            match r {
                Some(d) => written(*old(self), *final(self), h@, d),
                None => final(self).same_but_exports(old(self)) && final(self).exports@ == old(self).exports@
                    && forall|k: u32| #[trigger] old(self).exports@.contains_key(k),
            },
    {
        match h {
            Hook::Import(id) => {
                if self.imports.contains_key(id) {
                    return Some(CapDescriptor::ReceiverHosted(*id));
                }
            },
            Hook::Pipeline(q, path) => {
                if self.questions.contains(*q) {
                    return Some(CapDescriptor::ReceiverAnswer(*q, copy_path(path)));
                }
            },
            _ => {},
        }
        assert(!(h@ is Import && self.imports@.contains_key(h@->Import_0)));
        assert(!(h@ is Pipeline && self.questions@.contains_key(h@->Pipeline_0)));
        let promise = match h {
            Hook::Promise(_) => true,
            _ => false,
        };
        match self.exports.insert(Export { hook: h.duplicate(), refcount: 1 }) {
            Some(e) => if promise {
                Some(CapDescriptor::SenderPromise(e))
            } else {
                Some(CapDescriptor::SenderHosted(e))
            },
            None => None,
        }
    }


    /// The wire target of a call on `h`; `None` where `h` is not reached
    /// through this connection.
    pub fn target_of(&self, h: &Hook) -> (r: Option<MessageTarget>)
        ensures
            match r {
                Some(t) => targets(*self, h@, t),
                None => forall|t: MessageTarget| !targets(*self, h@, t),
            },
    {
        match h {
            Hook::Import(id) => if self.imports.contains_key(id) {
                Some(MessageTarget::ImportedCap(*id))
            } else {
                None
            },
            Hook::Pipeline(q, path) => if self.questions.contains(*q) {
                Some(MessageTarget::PromisedAnswer(*q, copy_path(path)))
            } else {
                None
            },
            _ => None,
        }
    }

    /// Takes back exports made for a message that could not be sent.
    fn unexport(&mut self, made: &Vec<u32>)
        requires
            old(self).wf(),
            old(self).disconnected is None,
        ensures
            final(self).wf(),
            final(self).same_but_exports(old(self)),
            forall|k: u32| #[trigger] final(self).exports@.contains_key(k) <==> (old(self).exports@.contains_key(k)
                && !made@.contains(k)),
            forall|k: u32| #[trigger] final(self).exports@.contains_key(k) ==> final(self).exports@[k]
                == old(self).exports@[k],
    {
        let mut j: usize = 0;
        while j < made.len()
            invariant
                self.wf(),
                self.disconnected is None,
                self.same_but_exports(old(self)),
                j <= made@.len(),
                forall|k: u32| #[trigger] self.exports@.contains_key(k) <==> (old(self).exports@.contains_key(k)
                    && !made@.subrange(0, j as int).contains(k)),
                forall|k: u32| #[trigger] self.exports@.contains_key(k) ==> self.exports@[k] == old(self).exports@[k],
            decreases made@.len() - j,
        {
            let ghost before = made@.subrange(0, j as int);
            self.exports.remove(made[j]);
            j = j + 1;
            proof {
                assert forall|k: u32| made@.subrange(0, j as int).contains(k) <==> (before.contains(k) || k == made@[j - 1]) by {
                    if made@.subrange(0, j as int).contains(k) {
                        let x = choose|x: int| 0 <= x < j && made@.subrange(0, j as int)[x] == k;
                        if x < j - 1 {
                            assert(before[x] == k);
                        }
                    }
                    if before.contains(k) {
                        let x = choose|x: int| 0 <= x < before.len() && before[x] == k;
                        assert(made@.subrange(0, j as int)[x] == k);
                    }
                    if k == made@[j - 1] {
                        assert(made@.subrange(0, j as int)[j - 1] == k);
                    }
                }
            }
        }
        assert(made@.subrange(0, made@.len() as int) =~= made@);
    }


    /// Writes the hooks into an outgoing message, in order; returns the
    /// descriptors and the fresh exports made for them. `None`, changing
    /// nothing, where the export ids run out.
    pub fn write_all(&mut self, params: &Vec<Hook>) -> (r: Option<(Vec<CapDescriptor>, Vec<u32>)>)
        requires
            old(self).wf(),
            old(self).disconnected is None,
        ensures
            final(self).wf(),
            final(self).same_but_exports(old(self)),
            match r {
                Some((caps, made)) => {
                    &&& made@.no_duplicates()
                    &&& exports_kept(*old(self), *final(self))
                    &&& caps@.len() == params@.len()
                    &&& forall|i: int| 0 <= i < params@.len() ==> describes(*old(self), *final(self), (#[trigger] params@[i])@, caps@[i])
                    &&& forall|k: u32| #[trigger] final(self).exports@.contains_key(k) ==> old(self).exports@.contains_key(k) || made@.contains(k)
                    &&& forall|k: u32| #[trigger] made@.contains(k) ==> !old(self).exports@.contains_key(k) && final(self).exports@.contains_key(k)
                },
                None => final(self).exports@ == old(self).exports@ && !has_free(old(self).exports@, params@.len()),
            },
    {
        let ghost pre = *self;
        let mut caps: Vec<CapDescriptor> = Vec::new();
        let mut made: Vec<u32> = Vec::new();
        let mut i: usize = 0;
        while i < params.len()
            invariant
                self.wf(),
                self.disconnected is None,
                self.same_but_exports(&pre),
                pre == *old(self),
                pre.disconnected is None,
                i <= params@.len(),
                caps@.len() == i,
                made@.len() <= i,
                made@.no_duplicates(),
                exports_kept(pre, *self),
                forall|k: int| 0 <= k < i ==> describes(pre, *self, (#[trigger] params@[k])@, caps@[k]),
                forall|k: u32| #[trigger] self.exports@.contains_key(k) ==> pre.exports@.contains_key(k) || made@.contains(k),
                forall|k: u32| #[trigger] made@.contains(k) ==> !pre.exports@.contains_key(k) && self.exports@.contains_key(k),
            decreases params@.len() - i,
        {
            let ghost before = *self;
            let ghost made_before = made@;
            match self.write_descriptor(&params[i]) {
                Some(d) => {
                    proof {
                        assert forall|k: u32| #[trigger] before.exports@.contains_key(k) implies self.exports@.contains_key(k)
                            && self.exports@[k] == before.exports@[k] by {
                            if !(params@[i as int]@ is Import && pre.imports@.contains_key(params@[i as int]@->Import_0))
                                && !(params@[i as int]@ is Pipeline && pre.questions@.contains_key(params@[i as int]@->Pipeline_0)) {
                                assert(self.exports@.dom().contains(k));
                            }
                        }
                    }
                    proof {
                        if exported_id(d) is Some && !(params@[i as int]@ is Import && pre.imports@.contains_key(
                            params@[i as int]@->Import_0)) && !(params@[i as int]@ is Pipeline
                            && pre.questions@.contains_key(params@[i as int]@->Pipeline_0)) {
                            let e = exported_id(d)->Some_0;
                            assert(!before.exports@.contains_key(e));
                            assert(!made_before.contains(e));
                        }
                    }
                    match &d {
                        CapDescriptor::SenderHosted(e) => made.push(*e),
                        CapDescriptor::SenderPromise(e) => made.push(*e),
                        _ => {},
                    }
                    proof {
                        assert forall|k: u32| #[trigger] self.exports@.contains_key(k) implies pre.exports@.contains_key(k) || made@.contains(k) by {
                            if before.exports@.contains_key(k) {
                                if !pre.exports@.contains_key(k) {
                                    assert(made_before.contains(k));
                                    let x = choose|x: int| 0 <= x < made_before.len() && made_before[x] == k;
                                    assert(made@[x] == k);
                                }
                            } else {
                                assert(made@[made@.len() - 1] == k);
                            }
                        }
                        assert forall|k: u32| #[trigger] made@.contains(k) implies !pre.exports@.contains_key(k) && self.exports@.contains_key(k) by {
                            let x = choose|x: int| 0 <= x < made@.len() && made@[x] == k;
                            if x < made_before.len() {
                                assert(made_before[x] == k);
                                assert(made_before.contains(k));
                            }
                        }
                    }
                    caps.push(d);
                    proof {
                        assert forall|k: int| 0 <= k < i + 1 implies describes(pre, *self, (#[trigger] params@[k])@, caps@[k]) by {
                            if k < i {
                                assert(describes(pre, before, params@[k]@, caps@[k]));
                            }
                        }
                    }
                },
                None => {
                    proof {
                        assert forall|fr: Set<u32>| fr.finite() && fr.len() >= params@.len() && (forall|k: u32|
                            #[trigger] fr.contains(k) ==> !pre.exports@.contains_key(k)) implies false by {
                            assert(fr.subset_of(made@.to_set())) by {
                                assert forall|k: u32| fr.contains(k) implies made@.to_set().contains(k) by {
                                    assert(before.exports@.contains_key(k));
                                }
                            }
                            vstd::seq_lib::seq_to_set_is_finite(made@);
                            vstd::set_lib::lemma_len_subset(fr, made@.to_set());
                            made@.lemma_cardinality_of_set();
                        }
                    }
                    self.unexport(&made);
                    proof {
                        assert(self.exports@ =~= pre.exports@);
                    }
                    return None;
                },
            }
            i = i + 1;
        }
        Some((caps, made))
    }

    /// Outbound call on `target`, a hook of this connection: the parameters'
    /// capabilities are written into the message, a question is allocated
    /// under the smallest free id, and the `Call` to send is returned.
    /// Fails, changing nothing, on a disconnected connection, on a target
    /// that this connection does not reach, and where the question or export
    /// ids are used up.
    pub fn send_call(&mut self, target: &Hook, interface_id: u64, method_id: u16, params: &Vec<Hook>) -> (r: Result<
        (u32, Message),
        Error,
    >)
        requires
            old(self).wf(),
        ensures
            final(self).wf(),
            match r {
                Ok((q, m)) => call_sent(*old(self), *final(self), target@, interface_id, method_id, params@, q, m),
                Err(e) => {
                    &&& final(self).same_but_exports(old(self))
                    &&& final(self).exports@ == old(self).exports@
                    &&& (old(self).disconnected is Some ==> e.kind == ErrorKind::Disconnected)
                    &&& (old(self).disconnected is None && !exists|t: MessageTarget| targets(*old(self), target@, t))
                        ==> e.kind == ErrorKind::Failed
                    &&& (old(self).disconnected is None && exists|t: MessageTarget| targets(*old(self), target@, t))
                        ==> (forall|k: u32| #[trigger] old(self).questions@.contains_key(k))
                        || !has_free(old(self).exports@, params@.len())
                },
            },
    {
        if self.disconnected.is_some() {
            return Err(Error::disconnected("the connection is closed".to_owned()));
        }
        let t = match self.target_of(target) {
            Some(t) => t,
            None => {
                return Err(Error::failed("the call's target is not reached through this connection".to_owned()));
            },
        };
        let ghost pre = *self;
        let (caps, made) = match self.write_all(params) {
            Some(x) => x,
            None => {
                return Err(Error::failed("every export id is in use".to_owned()));
            },
        };
        let ghost mid = *self;
        let made_copy = copy_ids(&made);
        match self.questions.insert(Question { param_exports: made, awaiting_return: true, finish_sent: false }) {
            Some(q) => {
                let m = Message::Call { question_id: q, target: t, interface_id, method_id, caps };
                proof {
                    assert forall|k: int| 0 <= k < params@.len() implies describes(pre, *self, (#[trigger] params@[k])@, caps@[k]) by {
                        assert(describes(pre, mid, params@[k]@, caps@[k]));
                    }
                    assert(self.questions@[q].param_exports@ == made_copy@);
                }
                Ok((q, m))
            },
            None => {
                self.unexport(&made_copy);
                proof {
                    assert(self.exports@ =~= pre.exports@);
                }
                Err(Error::failed("every question id is in use".to_owned()))
            },
        }
    }


    /// Takes one reference off each export in `ids`, as far as it is held.
    fn release_each(&mut self, ids: &Vec<u32>)
        requires
            old(self).wf(),
            old(self).disconnected is None,
            ids@.no_duplicates(),
        ensures
            final(self).wf(),
            final(self).same_but_exports(old(self)),
            forall|k: u32| #[trigger] old(self).exports@.contains_key(k) && !ids@.contains(k) ==> final(self).exports@.contains_key(k)
                && final(self).exports@[k] == old(self).exports@[k],
            forall|k: u32| #[trigger] final(self).exports@.contains_key(k) ==> old(self).exports@.contains_key(k),
            forall|k: u32| #[trigger] ids@.contains(k) && old(self).exports@.contains_key(k) ==> released_once(
                old(self).exports@,
                final(self).exports@,
                k,
            ),
    {
        let mut j: usize = 0;
        while j < ids.len()
            invariant
                self.wf(),
                self.disconnected is None,
                self.same_but_exports(old(self)),
                j <= ids@.len(),
                ids@.no_duplicates(),
                forall|k: u32| #[trigger] old(self).exports@.contains_key(k) && !ids@.subrange(0, j as int).contains(k)
                    ==> self.exports@.contains_key(k) && self.exports@[k] == old(self).exports@[k],
                forall|k: u32| #[trigger] self.exports@.contains_key(k) ==> old(self).exports@.contains_key(k),
                forall|k: u32| #[trigger] ids@.subrange(0, j as int).contains(k) && old(self).exports@.contains_key(k)
                    ==> released_once(old(self).exports@, self.exports@, k),
            decreases ids@.len() - j,
        {
            let ghost before = *self;
            let ghost done = ids@.subrange(0, j as int);
            let id = ids[j];
            self.release_export(id, 1);
            proof {
                let now = ids@.subrange(0, j + 1);
                assert forall|k: u32| now.contains(k) <==> (done.contains(k) || k == id) by {
                    if now.contains(k) {
                        let x = choose|x: int| 0 <= x < now.len() && now[x] == k;
                        if x < j {
                            assert(done[x] == k);
                        }
                    }
                    if done.contains(k) {
                        let x = choose|x: int| 0 <= x < done.len() && done[x] == k;
                        assert(now[x] == k);
                    }
                    if k == id {
                        assert(now[j as int] == k);
                    }
                }
                assert(!done.contains(id)) by {
                    if done.contains(id) {
                        let x = choose|x: int| 0 <= x < done.len() && done[x] == id;
                        assert(ids@[x] == ids@[j as int]);
                    }
                }
                assert forall|k: u32| #[trigger] old(self).exports@.contains_key(k) && !now.contains(k)
                    implies self.exports@.contains_key(k) && self.exports@[k] == old(self).exports@[k] by {
                    assert(before.exports@.contains_key(k));
                }
                assert forall|k: u32| #[trigger] now.contains(k) && old(self).exports@.contains_key(k)
                    implies released_once(old(self).exports@, self.exports@, k) by {
                    if k != id {
                        assert(released_once(old(self).exports@, before.exports@, k));
                    } else {
                        assert(before.exports@.contains_key(k));
                    }
                }
            }
            j = j + 1;
        }
        assert(ids@.subrange(0, ids@.len() as int) =~= ids@);
    }

    /// Inbound `Return` for question `question_id`. The outcome goes to the
    /// question's owner first, then the question's one `Finish`. Where the
    /// owner dropped the result and the `Finish` went already, nothing is
    /// fulfilled and nothing imported. The question is retired. A `Return`
    /// for a question that is unknown or already returned breaks the
    /// protocol.
    pub fn handle_return(&mut self, question_id: u32, release_param_caps: bool, which: ReturnKind) -> (r: Vec<Action>)
        requires
            old(self).wf(),
        ensures
            final(self).wf(),
            returned(*old(self), *final(self), question_id, release_param_caps, which, r@),
    {
        if self.disconnected.is_some() {
            return Vec::new();
        }
        let valid = match self.questions.get(question_id) {
            Some(q) => q.awaiting_return,
            None => false,
        };
        if !valid {
            return self.protocol_error("Return for an unknown question");
        }
        let dropped = match self.questions.get(question_id) {
            Some(q) => q.finish_sent,
            None => false,
        };
        if dropped {
            // The result is no longer wanted and its capabilities were released
            // with the `Finish`: nothing is fulfilled and nothing imported.
            let row = match self.questions.remove(question_id) {
                Some(row) => row,
                None => {
                    return Vec::new();
                },
            };
            let ghost after_remove = *self;
            if release_param_caps {
                self.release_each(&row.param_exports);
                assert(forall|k: u32| #[trigger] after_remove.exports@.contains_key(k)
                        && !row.param_exports@.contains(k) ==> self.exports@.contains_key(k)
                        && self.exports@[k] == after_remove.exports@[k]);
            }
            return Vec::new();
        }
        let outcome = match which {
            ReturnKind::Results(caps) => {
                let hooks = self.receive_caps(&caps);
                Action::Fulfill { question_id, caps: hooks }
            },
            ReturnKind::Exception(e) => Action::Reject { question_id, error: e },
            ReturnKind::Canceled => Action::Cancelled { question_id },
            ReturnKind::TakeFromOtherQuestion(a) => if self.answers.contains_key(&a) {
                Action::Redirect { question_id, answer_id: a }
            } else {
                Action::Reject {
                    question_id,
                    error: Error::failed("Return takes the results of an unknown answer".to_owned()),
                }
            },
            ReturnKind::AcceptFromThirdParty => Action::Reject {
                question_id,
                error: Error::unimplemented("three-party hand-off is not supported".to_owned()),
            },
        };
        let row = match self.questions.remove(question_id) {
            Some(row) => row,
            None => {
                return Vec::new();
            },
        };
        let ghost after_remove = *self;
        assert(after_remove.exports == old(self).exports);
        if release_param_caps {
            self.release_each(&row.param_exports);
            assert(forall|k: u32| #[trigger] after_remove.exports@.contains_key(k)
                    && !row.param_exports@.contains(k) ==> self.exports@.contains_key(k)
                    && self.exports@[k] == after_remove.exports@[k]);
        }
        let mut r: Vec<Action> = Vec::new();
        r.push(outcome);
        r.push(Action::Send(Message::Finish { question_id, release_result_caps: false }));
        r
    }

    /// Asks the peer to drop the question: the result is no longer wanted.
    /// Sends the question's `Finish` unless it went already; the question
    /// is retired once its `Return` has also come.
    pub fn send_finish(&mut self, question_id: u32) -> (r: Vec<Action>)
        requires
            old(self).wf(),
        ensures
            final(self).wf(),
            finish_requested(*old(self), *final(self), question_id, r@),
    {
        if self.disconnected.is_some() {
            return Vec::new();
        }
        let (awaiting, sent) = match self.questions.get(question_id) {
            Some(q) => (q.awaiting_return, q.finish_sent),
            None => {
                return Vec::new();
            },
        };
        if sent {
            return Vec::new();
        }
        if awaiting {
            let old_row = self.questions.swap_row(
                question_id,
                Question { param_exports: Vec::new(), awaiting_return: true, finish_sent: true },
            );
            self.questions.swap_row(
                question_id,
                Question { param_exports: old_row.param_exports, awaiting_return: true, finish_sent: true },
            );
            assert(self.questions@.remove(question_id) =~= old(self).questions@.remove(question_id));
        } else {
            self.questions.remove(question_id);
        }
        let mut r: Vec<Action> = Vec::new();
        r.push(Action::Send(Message::Finish { question_id, release_result_caps: true }));
        r
    }


    /// Inbound `Bootstrap` as question `question_id`: the bootstrap hook is
    /// written into the results, and the `Return` carrying it is sent at
    /// once. The answer stays until the peer's `Finish`. A question id that
    /// is already answered breaks the protocol.
    pub fn handle_bootstrap(&mut self, question_id: u32) -> (r: Vec<Action>)
        requires
            old(self).wf(),
        ensures
            final(self).wf(),
            bootstrapped(*old(self), *final(self), question_id, r@),
    {
        if self.disconnected.is_some() {
            return Vec::new();
        }
        if self.answers.contains_key(&question_id) {
            return self.protocol_error("Bootstrap for a question id already in use");
        }
        let hook = self.bootstrap.duplicate();
        let which = match self.write_descriptor(&hook) {
            Some(d) => {
                let made = match &d {
                    CapDescriptor::SenderHosted(e) => vec![*e],
                    CapDescriptor::SenderPromise(e) => vec![*e],
                    _ => Vec::new(),
                };
                assert(made@ == match exported_id(d) {
                    Some(e) => seq![e],
                    None => Seq::<u32>::empty(),
                });
                self.answers.insert(question_id, Answer { active: false, finish_received: false, result_exports: made });
                let caps = vec![d];
                assert(caps@[0] == d);
                ReturnKind::Results(caps)
            },
            None => {
                self.answers.insert(question_id, Answer { active: false, finish_received: false, result_exports: Vec::new() });
                ReturnKind::Exception(Error::failed("every export id is in use".to_owned()))
            },
        };
        assert(self.answers@ =~= old(self).answers@.insert(question_id, self.answers@[question_id]));
        let mut r: Vec<Action> = Vec::new();
        r.push(Action::Send(Message::Return { answer_id: question_id, release_param_caps: false, which }));
        r
    }

    /// Inbound `Call` as question `question_id`: the target and the
    /// parameters' capabilities are looked up, an answer is opened, and the
    /// call is handed on for delivery. An id already answered, an unknown
    /// export or an unknown answer as target break the protocol.
    pub fn handle_call(
        &mut self,
        question_id: u32,
        target: MessageTarget,
        interface_id: u64,
        method_id: u16,
        caps: Vec<CapDescriptor>,
    ) -> (r: Vec<Action>)
        requires
            old(self).wf(),
        ensures
            final(self).wf(),
            called(*old(self), *final(self), question_id, target, interface_id, method_id, caps, r@),
    {
        if self.disconnected.is_some() {
            return Vec::new();
        }
        if self.answers.contains_key(&question_id) {
            return self.protocol_error("Call for a question id already in use");
        }
        let t = match target {
            MessageTarget::ImportedCap(e) => match self.exports.get(e) {
                Some(row) => CallTarget::Hook(row.hook.duplicate()),
                None => {
                    return self.protocol_error("Call to an unknown export");
                },
            },
            MessageTarget::PromisedAnswer(a, path) => if self.answers.contains_key(&a) {
                CallTarget::Answer(a, path)
            } else {
                return self.protocol_error("Call on the result of an unknown answer");
            },
        };
        let params = self.receive_caps(&caps);
        self.answers.insert(question_id, Answer { active: true, finish_received: false, result_exports: Vec::new() });
        assert(self.answers@.dom() =~= old(self).answers@.dom().insert(question_id));
        let mut r: Vec<Action> = Vec::new();
        r.push(Action::Deliver { answer_id: question_id, target: t, interface_id, method_id, params });
        r
    }


    /// The call of answer `answer_id` has completed: its results (or its
    /// error) go back to the peer in a `Return`. The answer is retired if
    /// the peer's `Finish` has come already. Nothing happens for an answer
    /// that is unknown or already completed.
    pub fn complete_call(&mut self, answer_id: u32, results: Result<Vec<Hook>, Error>) -> (r: Vec<Action>)
        requires
            old(self).wf(),
        ensures
            final(self).wf(),
            !(old(self).disconnected is None && old(self).answers@.contains_key(answer_id)
                && old(self).answers@[answer_id].active) ==> *final(self) == *old(self) && r@.len() == 0,
            old(self).disconnected is None && old(self).answers@.contains_key(answer_id)
                && old(self).answers@[answer_id].active ==> {
                &&& final(self).disconnected is None
                &&& final(self).questions == old(self).questions
                &&& final(self).imports == old(self).imports
                &&& exports_kept(*old(self), *final(self))
                &&& if old(self).answers@[answer_id].finish_received {
                    final(self).answers@ == old(self).answers@.remove(answer_id)
                } else {
                    &&& final(self).answers@.dom() == old(self).answers@.dom()
                    &&& !final(self).answers@[answer_id].active
                    &&& final(self).answers@.remove(answer_id) == old(self).answers@.remove(answer_id)
                }
                &&& r@.len() == 1
                &&& r@[0] is Send && r@[0]->Send_0 is Return && r@[0]->Send_0->answer_id == answer_id
                &&& !r@[0]->Send_0->release_param_caps
                &&& match results {
                    Ok(hooks) => match r@[0]->Send_0->which {
                        ReturnKind::Results(caps) => caps@.len() == hooks@.len() && forall|i: int|
                            0 <= i < hooks@.len() ==> describes(*old(self), *final(self), (#[trigger] hooks@[i])@, caps@[i]),
                        ReturnKind::Exception(e) => e.kind == ErrorKind::Failed && !has_free(
                            old(self).exports@,
                            hooks@.len(),
                        ),
                        _ => false,
                    },
                    Err(e) => r@[0]->Send_0->which matches ReturnKind::Exception(e2) && e2@ == e@,
                }
            },
    {
        if self.disconnected.is_some() {
            return Vec::new();
        }
        let (active, finished) = match self.answers.get(&answer_id) {
            Some(a) => (a.active, a.finish_received),
            None => {
                return Vec::new();
            },
        };
        if !active {
            return Vec::new();
        }
        let ghost pre = *self;
        let (which, made) = match results {
            Ok(hooks) => match self.write_all(&hooks) {
                Some((caps, made)) => (ReturnKind::Results(caps), made),
                None => (ReturnKind::Exception(Error::failed("every export id is in use".to_owned())), Vec::new()),
            },
            Err(e) => (ReturnKind::Exception(e), Vec::new()),
        };
        let ghost mid = *self;
        if finished {
            self.answers.remove(&answer_id);
        } else {
            self.answers.insert(answer_id, Answer { active: false, finish_received: false, result_exports: made });
            assert(self.answers@.dom() =~= old(self).answers@.dom());
            assert(self.answers@.remove(answer_id) =~= old(self).answers@.remove(answer_id));
        }
        let mut r: Vec<Action> = Vec::new();
        r.push(Action::Send(Message::Return { answer_id, release_param_caps: false, which }));
        r
    }

    /// Inbound `Finish` for answer `question_id`: the peer no longer wants
    /// the results. With `release_result_caps`, the exports written into the
    /// results lose the reference they were sent with. The answer is retired
    /// if its call has completed. An unknown answer breaks the protocol.
    pub fn handle_finish(&mut self, question_id: u32, release_result_caps: bool) -> (r: Vec<Action>)
        requires
            old(self).wf(),
        ensures
            final(self).wf(),
            finished(*old(self), *final(self), question_id, release_result_caps, r@),
    {
        if self.disconnected.is_some() {
            return Vec::new();
        }
        let row = match self.answers.remove(&question_id) {
            Some(row) => row,
            None => {
                return self.protocol_error("Finish for an unknown answer");
            },
        };
        let ghost after_remove = *self;
        if release_result_caps {
            self.release_each(&row.result_exports);
            assert(forall|k: u32| #[trigger] after_remove.exports@.contains_key(k)
                    && !row.result_exports@.contains(k) ==> self.exports@.contains_key(k)
                    && self.exports@[k] == after_remove.exports@[k]);
        }
        if row.active {
            let kept = if release_result_caps {
                Vec::new()
            } else {
                row.result_exports
            };
            self.answers.insert(question_id, Answer { active: true, finish_received: true, result_exports: kept });
            assert(self.answers@.dom() =~= old(self).answers@.dom());
            assert(self.answers@.remove(question_id) =~= old(self).answers@.remove(question_id));
        }
        Vec::new()
    }

    /// This vat drops its last reference to an import: the peer is told by
    /// a `Release` of every reference it sent, and the row goes.
    pub fn release_import(&mut self, id: u32) -> (r: Vec<Action>)
        requires
            old(self).wf(),
        ensures
            final(self).wf(),
            if old(self).disconnected is None && old(self).imports@.contains_key(id) {
                &&& final(self).same_but_imports(old(self))
                &&& final(self).imports@ == old(self).imports@.remove(id)
                &&& r@ == seq![Action::Send(Message::Release { id, reference_count: old(self).imports@[id].refcount })]
            } else {
                *final(self) == *old(self) && r@.len() == 0
            },
    {
        if self.disconnected.is_some() || !self.imports.contains_key(&id) {
            return Vec::new();
        }
        match self.imports.remove(&id) {
            Some(row) => {
                let mut r: Vec<Action> = Vec::new();
                r.push(Action::Send(Message::Release { id, reference_count: row.refcount }));
                r
            },
            None => Vec::new(),
        }
    }

    /// Starts an embargo on the path `target`: calls made from now on to the
    /// resolved target are held back until the peer echoes the returned
    /// `Disembargo`. Fails, changing nothing, on a disconnected connection or
    /// where every embargo id is in use.
    pub fn start_embargo(&mut self, target: MessageTarget) -> (r: Result<(u32, Message), Error>)
        requires
            old(self).wf(),
        ensures
            final(self).wf(),
            match r {
                Ok((e, m)) => {
                    &&& old(self).disconnected is None
                    &&& !old(self).embargoes@.contains_key(e)
                    &&& final(self).embargoes@ == old(self).embargoes@.insert(e, final(self).embargoes@[e])
                    &&& final(self).embargoes@[e].held@.len() == 0
                    &&& final(self).questions == old(self).questions
                    &&& final(self).answers == old(self).answers
                    &&& final(self).exports == old(self).exports
                    &&& final(self).imports == old(self).imports
                    &&& final(self).disconnected == old(self).disconnected
                    &&& m == Message::Disembargo { target, context: DisembargoContext::SenderLoopback(e) }
                },
                Err(err) => {
                    &&& *final(self) == *old(self)
                    &&& old(self).disconnected is Some ==> err.kind == ErrorKind::Disconnected
                    &&& old(self).disconnected is None ==> forall|k: u32| #[trigger] old(self).embargoes@.contains_key(k)
                },
            },
    {
        if self.disconnected.is_some() {
            return Err(Error::disconnected("the connection is closed".to_owned()));
        }
        match self.embargoes.insert(Embargo { held: Vec::new() }) {
            Some(e) => Ok((e, Message::Disembargo { target, context: DisembargoContext::SenderLoopback(e) })),
            None => Err(Error::failed("every embargo id is in use".to_owned())),
        }
    }

    /// Holds a call back under an embargo still in force; returns false,
    /// changing nothing, where there is no such embargo.
    pub fn hold_call(&mut self, embargo_id: u32, call: u64) -> (r: bool)
        requires
            old(self).wf(),
        ensures
            final(self).wf(),
            r == old(self).embargoes@.contains_key(embargo_id),
            r ==> final(self).embargoes@ == old(self).embargoes@.insert(embargo_id, final(self).embargoes@[embargo_id])
                && final(self).embargoes@[embargo_id].held@ == old(self).embargoes@[embargo_id].held@.push(call),
            !r ==> *final(self) == *old(self),
            final(self).questions == old(self).questions,
            final(self).answers == old(self).answers,
            final(self).exports == old(self).exports,
            final(self).imports == old(self).imports,
            final(self).disconnected == old(self).disconnected,
    {
        if !self.embargoes.contains(embargo_id) {
            return false;
        }
        let mut row = self.embargoes.swap_row(embargo_id, Embargo { held: Vec::new() });
        row.held.push(call);
        self.embargoes.swap_row(embargo_id, row);
        true
    }

    /// Inbound `Disembargo`. A sender loopback is echoed back along the same
    /// path; a receiver loopback ends this vat's embargo and hands back the
    /// calls it held, in the order they were made. Level 3 contexts are
    /// answered with `Unimplemented`. An unknown embargo breaks the protocol.
    pub fn handle_disembargo(&mut self, target: MessageTarget, context: DisembargoContext) -> (r: Vec<Action>)
        requires
            old(self).wf(),
        ensures
            final(self).wf(),
            disembargoed(*old(self), *final(self), target, context, r@),
    {
        if self.disconnected.is_some() {
            return Vec::new();
        }
        let mut r: Vec<Action> = Vec::new();
        match context {
            DisembargoContext::SenderLoopback(e) => {
                r.push(Action::Send(Message::Disembargo { target, context: DisembargoContext::ReceiverLoopback(e) }));
            },
            DisembargoContext::ReceiverLoopback(e) => match self.embargoes.remove(e) {
                Some(row) => {
                    r.push(Action::ReleaseHeld { calls: row.held });
                },
                None => {
                    return self.protocol_error("Disembargo for an unknown embargo");
                },
            },
            _ => {
                r.push(Action::Send(Message::Unimplemented(MessageKind::Disembargo)));
            },
        }
        r
    }

    /// Inbound `Resolve` for a promise that the peer exported: the import
    /// settles to the capability it names, or breaks with its error. Where
    /// this vat has released the import already, a capability that the
    /// message hands over is released at once.
    pub fn handle_resolve(&mut self, promise_id: u32, resolution: Resolution) -> (r: Vec<Action>)
        requires
            old(self).wf(),
        ensures
            final(self).wf(),
            resolved(*old(self), *final(self), promise_id, resolution, r@),
    {
        if self.disconnected.is_some() {
            return Vec::new();
        }
        let mut r: Vec<Action> = Vec::new();
        if !self.imports.contains_key(&promise_id) {
            match &resolution {
                Resolution::Cap(CapDescriptor::SenderHosted(e)) => {
                    r.push(Action::Send(Message::Release { id: *e, reference_count: 1 }));
                },
                Resolution::Cap(CapDescriptor::SenderPromise(e)) => {
                    r.push(Action::Send(Message::Release { id: *e, reference_count: 1 }));
                },
                _ => {},
            }
            return r;
        }
        let hook = match &resolution {
            Resolution::Cap(d) => self.receive_cap(d),
            Resolution::Exception(err) => Hook::Broken(err.kind),
        };
        // A promise that resolves to a capability of this vat: calls already
        // sent through the promise may still be in flight, so later calls
        // wait for a disembargo to come back along the same path.
        let loopback = match &resolution {
            Resolution::Cap(CapDescriptor::ReceiverHosted(_)) => true,
            _ => false,
        };
        if loopback {
            match self.embargoes.insert(Embargo { held: Vec::new() }) {
                Some(e) => {
                    r.push(Action::ResolveImport { import_id: promise_id, hook, embargo: Some(e) });
                    r.push(Action::Send(Message::Disembargo {
                        target: MessageTarget::ImportedCap(promise_id),
                        context: DisembargoContext::SenderLoopback(e),
                    }));
                },
                None => {
                    r.push(Action::ResolveImport { import_id: promise_id, hook, embargo: None });
                },
            }
        } else {
            r.push(Action::ResolveImport { import_id: promise_id, hook, embargo: None });
        }
        r
    }


    /// Outbound `Bootstrap`: asks the peer for its bootstrap capability as a
    /// new question, whose result the returned pipeline hook stands for.
    /// Fails, changing nothing, on a disconnected connection or where every
    /// question id is in use.
    pub fn send_bootstrap(&mut self) -> (r: Result<(Hook, Message), Error>)
        requires
            old(self).wf(),
        ensures
            final(self).wf(),
            match r {
                Ok((h, m)) => {
                    &&& old(self).disconnected is None
                    &&& h is Pipeline
                    &&& h->Pipeline_1@.len() == 0
                    &&& !old(self).questions@.contains_key(h->Pipeline_0)
                    &&& all_below_used(old(self).questions@, h->Pipeline_0)
                    &&& final(self).questions@ == old(self).questions@.insert(h->Pipeline_0, final(self).questions@[h->Pipeline_0])
                    &&& final(self).questions@[h->Pipeline_0].awaiting_return
                    &&& !final(self).questions@[h->Pipeline_0].finish_sent
                    &&& final(self).questions@[h->Pipeline_0].param_exports@.len() == 0
                    &&& final(self).answers == old(self).answers
                    &&& final(self).exports == old(self).exports
                    &&& final(self).imports == old(self).imports
                    &&& final(self).embargoes == old(self).embargoes
                    &&& final(self).disconnected == old(self).disconnected
                    &&& m == Message::Bootstrap { question_id: h->Pipeline_0 }
                },
                Err(e) => {
                    &&& *final(self) == *old(self)
                    &&& old(self).disconnected is Some ==> e.kind == ErrorKind::Disconnected
                    &&& old(self).disconnected is None ==> forall|k: u32| #[trigger] old(self).questions@.contains_key(k)
                },
            },
    {
        if self.disconnected.is_some() {
            return Err(Error::disconnected("the connection is closed".to_owned()));
        }
        match self.questions.insert(Question { param_exports: Vec::new(), awaiting_return: true, finish_sent: false }) {
            Some(q) => Ok((Hook::Pipeline(q, Vec::new()), Message::Bootstrap { question_id: q })),
            None => Err(Error::failed("every question id is in use".to_owned())),
        }
    }

    /// Dispatches one inbound message. Messages of levels this vat does not
    /// implement are answered with `Unimplemented`; an `Abort` ends the
    /// connection without a reply; nothing is done once disconnected.
    pub fn handle_message(&mut self, msg: Message) -> (r: Vec<Action>)
        requires
            old(self).wf(),
        ensures
            final(self).wf(),
            handled(*old(self), *final(self), msg, r@),
    {
        match msg {
            Message::Release { id, reference_count } => self.handle_release(id, reference_count),
            Message::Return { answer_id, release_param_caps, which } => self.handle_return(
                answer_id,
                release_param_caps,
                which,
            ),
            Message::Finish { question_id, release_result_caps } => self.handle_finish(question_id, release_result_caps),
            Message::Bootstrap { question_id } => self.handle_bootstrap(question_id),
            Message::Call { question_id, target, interface_id, method_id, caps } => self.handle_call(
                question_id,
                target,
                interface_id,
                method_id,
                caps,
            ),
            Message::Resolve { promise_id, resolution } => self.handle_resolve(promise_id, resolution),
            Message::Disembargo { target, context } => self.handle_disembargo(target, context),
            Message::Abort(e) => if self.disconnected.is_none() {
                self.disconnect(e, false)
            } else {
                Vec::new()
            },
            Message::Unimplemented(_) => Vec::new(),
            other => {
                let mut r: Vec<Action> = Vec::new();
                if self.disconnected.is_none() {
                    r.push(Action::Send(Message::Unimplemented(other.kind())));
                }
                r
            },
        }
    }

    /// Inbound `Release`: the peer drops `count` references to an export.
    pub fn handle_release(&mut self, id: u32, count: u32) -> (r: Vec<Action>)
        requires
            old(self).wf(),
        ensures
            final(self).wf(),
            released(*old(self), *final(self), id, count, r@),
    {
        if self.disconnected.is_some() {
            return Vec::new();
        }
        if self.release_export(id, count) {
            Vec::new()
        } else {
            self.protocol_error("Release of an unknown export or of too many references")
        }
    }
}

} // verus!
