use capnp_rpc::connection::{Action, CallTarget, ConnectionState};
use capnp_rpc::error::{Error, ErrorKind};
use capnp_rpc::message::{CapDescriptor, DisembargoContext, Hook, Message, MessageKind, MessageTarget, Resolution, ReturnKind};
use capnp_rpc::system::{RpcSystem, Server};

/// Splits actions into the messages to send and the rest.
fn split(actions: Vec<Action>) -> (Vec<Message>, Vec<Action>) {
    let mut sent = Vec::new();
    let mut rest = Vec::new();
    for a in actions {
        match a {
            Action::Send(m) => sent.push(m),
            other => rest.push(other),
        }
    }
    (sent, rest)
}

fn deliver_all(to: &mut ConnectionState, msgs: Vec<Message>) -> Vec<Action> {
    let mut out = Vec::new();
    for m in msgs {
        out.extend(to.handle_message(m));
    }
    out
}

fn connection(sys: &mut RpcSystem) -> &mut ConnectionState {
    sys.connection.as_mut().unwrap()
}

fn export_count(c: &ConnectionState) -> usize {
    c.exports.ids().len()
}

fn question_count(c: &ConnectionState) -> usize {
    c.questions.ids().len()
}

/// Bootstraps a client on a server whose bootstrap is server 1; returns the
/// client's import of it.
fn bootstrapped_pair() -> (RpcSystem, RpcSystem, u32) {
    let mut server = RpcSystem::new(Some(Server::new_client(1)));
    server.accept();
    let mut client = RpcSystem::new(None);
    let (hook, acts) = client.bootstrap(false).unwrap();
    assert!(matches!(hook, Hook::Pipeline(0, ref p) if p.is_empty()));
    let (sent, _) = split(acts);
    assert!(matches!(sent[..], [Message::Bootstrap { question_id: 0 }]));
    let (ret, _) = split(deliver_all(connection(&mut server), sent));
    assert_eq!(ret.len(), 1);
    let (finish, rest) = split(deliver_all(connection(&mut client), ret));
    let import = match &rest[..] {
        [Action::Fulfill { question_id: 0, caps }] => match caps[..] {
            [Hook::Import(e)] => e,
            _ => panic!("bootstrap did not return one import"),
        },
        _ => panic!("bootstrap did not fulfill"),
    };
    assert!(matches!(finish[..], [Message::Finish { question_id: 0, release_result_caps: false }]));
    let after = deliver_all(connection(&mut server), finish);
    assert!(after.is_empty());
    (client, server, import)
}

#[test]
fn hello_world_exchange() {
    let (mut client, mut server, import) = bootstrapped_pair();
    let (q, call) = connection(&mut client).send_call(&Hook::Import(import), 0xabcd, 0, &Vec::new()).unwrap();
    assert_eq!(q, 0);
    let delivered = connection(&mut server).handle_message(call);
    let answer = match &delivered[..] {
        [Action::Deliver { answer_id, target: CallTarget::Hook(Hook::Local(1)), interface_id: 0xabcd, method_id: 0, params }] => {
            assert!(params.is_empty());
            *answer_id
        },
        _ => panic!("call was not delivered to the bootstrap server"),
    };
    let (ret, _) = split(connection(&mut server).complete_call(answer, Ok(Vec::new())));
    assert_eq!(ret.len(), 1);
    assert!(matches!(ret[0], Message::Return { answer_id: 0, .. }));
    let (finish, rest) = split(deliver_all(connection(&mut client), ret));
    assert!(matches!(rest[..], [Action::Fulfill { question_id: 0, .. }]));
    assert_eq!(finish.len(), 1);
    assert!(matches!(finish[0], Message::Finish { question_id: 0, .. }));
    assert!(deliver_all(connection(&mut server), finish).is_empty());
    let (release, _) = split(connection(&mut client).release_import(import));
    assert!(matches!(release[..], [Message::Release { id, reference_count: 1 }] if id == import));
    assert!(deliver_all(connection(&mut server), release).is_empty());
    let s = connection(&mut server);
    assert_eq!(export_count(s), 0);
    assert_eq!(s.answers.len(), 0);
    assert_eq!(s.imports.len(), 0);
    let c = connection(&mut client);
    assert_eq!(c.imports.len(), 0);
    assert_eq!(question_count(c), 0);
    assert_eq!(export_count(c), 0);
}

#[test]
fn pipelined_call_targets_promised_answer() {
    let (mut client, mut server, import) = bootstrapped_pair();
    let (q1, get_sub) = connection(&mut client).send_call(&Hook::Import(import), 7, 0, &Vec::new()).unwrap();
    let sub = Hook::Pipeline(q1, vec![0]);
    let (q2, op) = connection(&mut client).send_call(&sub, 8, 0, &Vec::new()).unwrap();
    assert_eq!((q1, q2), (0, 1));
    match &op {
        Message::Call { question_id: 1, target: MessageTarget::PromisedAnswer(0, path), .. } => assert_eq!(path, &vec![0u16]),
        _ => panic!("second call is not pipelined on the first"),
    }
    let first = connection(&mut server).handle_message(get_sub);
    assert!(matches!(first[..], [Action::Deliver { answer_id: 0, target: CallTarget::Hook(Hook::Local(1)), .. }]));
    let second = connection(&mut server).handle_message(op);
    match &second[..] {
        [Action::Deliver { answer_id: 1, target: CallTarget::Answer(0, path), .. }] => assert_eq!(path, &vec![0u16]),
        _ => panic!("pipelined call not delivered on the answer"),
    }
}

#[test]
fn capability_return_exports_and_releases() {
    let (mut client, mut server, import) = bootstrapped_pair();
    let (_, call) = connection(&mut client).send_call(&Hook::Import(import), 1, 2, &Vec::new()).unwrap();
    connection(&mut server).handle_message(call);
    let before = export_count(connection(&mut server));
    let (ret, _) = split(connection(&mut server).complete_call(0, Ok(vec![Hook::Local(5)])));
    assert_eq!(export_count(connection(&mut server)), before + 1);
    let e = match &ret[..] {
        [Message::Return { which: ReturnKind::Results(caps), .. }] => match caps[..] {
            [CapDescriptor::SenderHosted(e)] => e,
            _ => panic!("result is not a sender-hosted cap"),
        },
        _ => panic!("no return"),
    };
    let (finish, rest) = split(deliver_all(connection(&mut client), ret));
    assert!(matches!(rest[..], [Action::Fulfill { question_id: 0, ref caps }] if matches!(caps[..], [Hook::Import(x)] if x == e)));
    assert!(connection(&mut client).imports.contains_key(&e));
    deliver_all(connection(&mut server), finish);
    let (release, _) = split(connection(&mut client).release_import(e));
    assert!(matches!(release[..], [Message::Release { id, reference_count: 1 }] if id == e));
    deliver_all(connection(&mut server), release);
    assert!(!connection(&mut server).exports.contains(e));
    assert_eq!(export_count(connection(&mut server)), before);
}

#[test]
fn promise_resolution_with_embargo() {
    let (mut client, mut server, import) = bootstrapped_pair();
    // The client hands server 3 of its own to the peer.
    let (_, call) = connection(&mut client).send_call(&Hook::Import(import), 1, 0, &vec![Hook::Local(3)]).unwrap();
    let own_export = match &call {
        Message::Call { caps, .. } => match caps[..] {
            [CapDescriptor::SenderHosted(e)] => e,
            _ => panic!("param not exported"),
        },
        _ => panic!("not a call"),
    };
    connection(&mut server).handle_message(call);
    // The server answers with a promise of its own.
    let (ret, _) = split(connection(&mut server).complete_call(0, Ok(vec![Hook::Promise(9)])));
    let promise = match &ret[..] {
        [Message::Return { which: ReturnKind::Results(caps), .. }] => match caps[..] {
            [CapDescriptor::SenderPromise(e)] => e,
            _ => panic!("result is not a sender promise"),
        },
        _ => panic!("no return"),
    };
    deliver_all(connection(&mut client), ret);
    assert!(connection(&mut client).imports.get(&promise).unwrap().is_promise);
    // The promise resolves to the client's own capability: an embargo starts.
    let resolved = connection(&mut client).handle_message(Message::Resolve {
        promise_id: promise,
        resolution: Resolution::Cap(CapDescriptor::ReceiverHosted(own_export)),
    });
    let (disembargo, rest) = split(resolved);
    let embargo = match rest[..] {
        [Action::ResolveImport { import_id, hook: Hook::Local(3), embargo: Some(e) }] if import_id == promise => e,
        _ => panic!("resolution did not start an embargo"),
    };
    assert!(matches!(disembargo[..], [Message::Disembargo { target: MessageTarget::ImportedCap(p), context: DisembargoContext::SenderLoopback(e) }] if e == embargo && p == promise));
    let disembargo = disembargo.into_iter().next().unwrap();
    // A call made after the resolution waits for the echo.
    assert!(connection(&mut client).hold_call(embargo, 42));
    assert!(connection(&mut client).hold_call(embargo, 43));
    let (echo, _) = split(connection(&mut server).handle_message(disembargo));
    assert!(matches!(echo[..], [Message::Disembargo { context: DisembargoContext::ReceiverLoopback(e), .. }] if e == embargo));
    let released = deliver_all(connection(&mut client), echo);
    match &released[..] {
        [Action::ReleaseHeld { calls }] => assert_eq!(calls, &vec![42u64, 43]),
        _ => panic!("held calls not released"),
    }
    assert!(!connection(&mut client).embargoes.contains(embargo));
}

#[test]
fn abort_on_unknown_return() {
    let (mut client, _server, import) = bootstrapped_pair();
    let (q, _call) = connection(&mut client).send_call(&Hook::Import(import), 1, 0, &Vec::new()).unwrap();
    let c = connection(&mut client);
    let acts = c.handle_message(Message::Return { answer_id: 77, release_param_caps: true, which: ReturnKind::Canceled });
    assert_eq!(acts.len(), 2);
    assert!(matches!(acts[0], Action::Send(Message::Abort(_))));
    match &acts[1] {
        Action::Disconnected { failed_questions, error } => {
            assert_eq!(failed_questions, &vec![q]);
            assert_eq!(error.kind, ErrorKind::Disconnected);
        },
        _ => panic!("no disconnect"),
    }
    assert!(c.is_disconnected());
    assert_eq!(c.imports.len(), 0);
    assert!(c.handle_message(Message::Bootstrap { question_id: 3 }).is_empty());
}

#[test]
fn clean_shutdown_reaps_answers() {
    let (mut client, mut server, import) = bootstrapped_pair();
    let (_, call) = connection(&mut client).send_call(&Hook::Import(import), 1, 0, &Vec::new()).unwrap();
    connection(&mut server).handle_message(call);
    let (_ret, _) = split(connection(&mut server).complete_call(0, Ok(Vec::new())));
    // The transport closes before the client's Finish.
    assert_eq!(connection(&mut server).answers.len(), 1);
    let acts = server.shutdown();
    assert_eq!(acts.len(), 2);
    assert!(matches!(acts[0], Action::Send(Message::Abort(ref e)) if e.kind == ErrorKind::Disconnected));
    assert!(matches!(acts[1], Action::Disconnected { ref error, .. } if error.kind == ErrorKind::Disconnected));
    assert!(server.connection.is_none());
    assert!(server.handle_message(Message::Finish { question_id: 0, release_result_caps: true }).is_empty());
}

#[test]
fn closed_connection_state_drops_its_answers() {
    let mut c = ConnectionState::new(Hook::Local(1));
    c.handle_bootstrap(0);
    assert_eq!(c.answers.len(), 1);
    let acts = c.disconnect(Error::disconnected("peer closed".to_string()), false);
    assert!(matches!(acts[..], [Action::Disconnected { .. }]));
    assert_eq!(c.answers.len(), 0);
    assert_eq!(export_count(&c), 0);
}

#[test]
fn dropped_question_fulfils_nothing() {
    let mut c = ConnectionState::new(Hook::Local(1));
    c.send_bootstrap().unwrap();
    c.send_finish(0);
    let acts = c.handle_return(0, true, ReturnKind::Results(vec![CapDescriptor::SenderHosted(4)]));
    assert!(acts.is_empty());
    assert_eq!(c.imports.len(), 0);
    assert!(!c.questions.contains(0));
}

#[test]
fn system_drops_connection_after_abort() {
    let mut sys = RpcSystem::new(None);
    sys.accept();
    let acts = sys.handle_message(Message::Abort(Error::failed("bye".to_string())));
    assert!(matches!(acts[..], [Action::Disconnected { .. }]));
    assert!(sys.connection.is_none());
}

#[test]
fn release_decreases_and_removes() {
    let (_client, mut server, import) = bootstrapped_pair();
    let s = connection(&mut server);
    assert_eq!(s.exports.get(import).unwrap().refcount, 1);
    assert!(s.handle_release(import, 1).is_empty());
    assert!(!s.exports.contains(import));
}

#[test]
fn release_of_too_many_references_aborts() {
    let (_client, mut server, import) = bootstrapped_pair();
    let s = connection(&mut server);
    let acts = s.handle_release(import, 2);
    assert!(matches!(acts[0], Action::Send(Message::Abort(_))));
    assert!(s.is_disconnected());
}

#[test]
fn second_return_for_a_question_aborts() {
    let mut c = ConnectionState::new(Hook::Local(1));
    let (_, m) = c.send_bootstrap().unwrap();
    assert!(matches!(m, Message::Bootstrap { question_id: 0 }));
    let first = c.handle_return(0, true, ReturnKind::Canceled);
    let (finish, rest) = split(first);
    assert!(matches!(rest[..], [Action::Cancelled { question_id: 0 }]));
    assert_eq!(finish.len(), 1);
    let second = c.handle_return(0, true, ReturnKind::Canceled);
    assert!(matches!(second[0], Action::Send(Message::Abort(_))));
}

#[test]
fn cancelled_question_sends_one_finish() {
    let mut c = ConnectionState::new(Hook::Local(1));
    c.send_bootstrap().unwrap();
    let (f1, _) = split(c.send_finish(0));
    assert!(matches!(f1[..], [Message::Finish { question_id: 0, release_result_caps: true }]));
    assert!(c.send_finish(0).is_empty());
    let acts = c.handle_return(0, true, ReturnKind::Exception(Error::failed("boom".to_string())));
    assert!(acts.is_empty());
    assert!(!c.questions.contains(0));
}

#[test]
fn round_trip_identity() {
    let mut c = ConnectionState::new(Hook::Local(1));
    let d = c.write_descriptor(&Server::new_client(3)).unwrap();
    let e = match d {
        CapDescriptor::SenderHosted(e) => e,
        _ => panic!("not exported"),
    };
    let back = c.receive_cap(&CapDescriptor::ReceiverHosted(e));
    assert!(back.same_as(&Hook::Local(3)));
    assert!(!back.same_as(&Hook::Local(4)));
}

#[test]
fn level_three_messages_are_unimplemented() {
    let mut c = ConnectionState::new(Hook::Local(1));
    for m in vec![Message::Provide, Message::Accept, Message::Join, Message::ObsoleteSave] {
        let kind = m.kind();
        let acts = c.handle_message(m);
        assert!(matches!(acts[..], [Action::Send(Message::Unimplemented(k))] if k == kind));
    }
    assert!(c.handle_message(Message::Unimplemented(MessageKind::Call)).is_empty());
}

#[test]
fn remote_abort_disconnects_silently() {
    let mut c = ConnectionState::new(Hook::Local(1));
    c.send_bootstrap().unwrap();
    let acts = c.handle_message(Message::Abort(Error::failed("bye".to_string())));
    assert!(matches!(&acts[..], [Action::Disconnected { failed_questions, .. }] if failed_questions == &vec![0u32]));
    assert_eq!(c.disconnected.as_ref().unwrap().description, "bye");
    assert_eq!(c.disconnected.as_ref().unwrap().kind, ErrorKind::Disconnected);
}

#[test]
fn local_bootstrap_returns_own_capability() {
    let mut sys = RpcSystem::new(Some(Server::new_client(8)));
    let (h, acts) = sys.bootstrap(true).unwrap();
    assert!(h.same_as(&Hook::Local(8)));
    assert!(acts.is_empty());
    assert!(sys.connection.is_none());
    let mut bare = RpcSystem::new(None);
    let (b, _) = bare.bootstrap(true).unwrap();
    assert!(b.same_as(&Hook::Broken(ErrorKind::Failed)));
}

#[test]
fn null_and_third_party_caps_are_broken() {
    let mut c = ConnectionState::new(Hook::Local(1));
    assert!(c.receive_cap(&CapDescriptor::Null).same_as(&Hook::Broken(ErrorKind::Failed)));
    assert!(c.receive_cap(&CapDescriptor::ThirdPartyHosted).same_as(&Hook::Broken(ErrorKind::Unimplemented)));
    assert!(c.receive_cap(&CapDescriptor::ReceiverHosted(5)).same_as(&Hook::Broken(ErrorKind::Failed)));
}

#[test]
fn imports_count_references() {
    let mut c = ConnectionState::new(Hook::Local(1));
    c.receive_cap(&CapDescriptor::SenderHosted(4));
    c.receive_cap(&CapDescriptor::SenderHosted(4));
    assert_eq!(c.imports.get(&4).unwrap().refcount, 2);
    let (rel, _) = split(c.release_import(4));
    assert!(matches!(rel[..], [Message::Release { id: 4, reference_count: 2 }]));
}

#[test]
fn protocol_errors_abort_the_connection() {
    let mut c = ConnectionState::new(Hook::Local(1));
    let acts = c.handle_finish(9, true);
    assert!(matches!(acts[0], Action::Send(Message::Abort(ref e)) if e.kind == ErrorKind::Failed));
    assert!(c.is_disconnected());

    let mut c = ConnectionState::new(Hook::Local(1));
    let acts = c.handle_call(0, MessageTarget::ImportedCap(4), 1, 1, Vec::new());
    assert!(matches!(acts[0], Action::Send(Message::Abort(_))));

    let mut c = ConnectionState::new(Hook::Local(1));
    assert_eq!(c.handle_bootstrap(0).len(), 1);
    let acts = c.handle_bootstrap(0);
    assert!(matches!(acts[0], Action::Send(Message::Abort(_))));

    let mut c = ConnectionState::new(Hook::Local(1));
    let acts = c.handle_disembargo(MessageTarget::ImportedCap(0), DisembargoContext::ReceiverLoopback(3));
    assert!(matches!(acts[0], Action::Send(Message::Abort(_))));
}

#[test]
fn calls_fail_without_a_wire_target_or_connection() {
    let mut c = ConnectionState::new(Hook::Local(1));
    let err = c.send_call(&Hook::Local(2), 1, 1, &Vec::new()).unwrap_err();
    assert_eq!(err.kind, ErrorKind::Failed);
    assert!(c.questions.ids().is_empty());
    c.disconnect(Error::disconnected("gone".to_string()), true);
    let err = c.send_call(&Hook::Import(0), 1, 1, &Vec::new()).unwrap_err();
    assert_eq!(err.kind, ErrorKind::Disconnected);
    let err = c.start_embargo(MessageTarget::ImportedCap(0)).unwrap_err();
    assert_eq!(err.kind, ErrorKind::Disconnected);
    assert_eq!(c.send_bootstrap().unwrap_err().kind, ErrorKind::Disconnected);
}

#[test]
fn return_outcomes_map_to_actions() {
    let mut c = ConnectionState::new(Hook::Local(1));
    for _ in 0..3 {
        c.send_bootstrap().unwrap();
    }
    let (_, rest) = split(c.handle_return(0, true, ReturnKind::AcceptFromThirdParty));
    assert!(matches!(&rest[..], [Action::Reject { question_id: 0, error }] if error.kind == ErrorKind::Unimplemented));
    let (_, rest) = split(c.handle_return(1, true, ReturnKind::TakeFromOtherQuestion(5)));
    assert!(matches!(&rest[..], [Action::Reject { question_id: 1, error }] if error.kind == ErrorKind::Failed));
    c.handle_bootstrap(5);
    let (_, rest) = split(c.handle_return(2, true, ReturnKind::TakeFromOtherQuestion(5)));
    assert!(matches!(rest[..], [Action::Redirect { question_id: 2, answer_id: 5 }]));
}

#[test]
fn finish_releases_result_caps() {
    let mut c = ConnectionState::new(Hook::Local(1));
    let (ret, _) = split(c.handle_bootstrap(0));
    let e = match &ret[..] {
        [Message::Return { which: ReturnKind::Results(caps), .. }] => match caps[..] {
            [CapDescriptor::SenderHosted(e)] => e,
            _ => panic!("no export"),
        },
        _ => panic!("no return"),
    };
    assert!(c.exports.contains(e));
    assert!(c.handle_finish(0, true).is_empty());
    assert!(!c.exports.contains(e));
    assert_eq!(c.answers.len(), 0);
}
