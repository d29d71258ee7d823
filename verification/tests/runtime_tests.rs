use dino::cli::{RunOpts, SubCommand};
use dino::error::{AppError, WorkerError};
use dino::model::{assemble_req, Res};
use dino::pool::Params;
use dino::watch::needs_swap;

#[test]
fn job_reply_reaches_exactly_its_submitter() {
    let (tx, rx) = oneshot::channel();
    let req = assemble_req(
        "GET".to_string(),
        "http://localhost/a".to_string(),
        vec![],
        vec![],
        vec![],
        None,
    );
    let params = Params::new("code".to_string(), "h".to_string(), req, tx);
    assert_eq!(params.code, "code");
    assert_eq!(params.handler, "h");
    let res = Res::new(200, vec![], Some("ok".to_string()));
    params.complete(Ok(res)).unwrap();
    let reply = rx.recv().unwrap();
    let got = reply.unwrap();
    assert_eq!(got.status, 200);
    assert_eq!(got.body, Some("ok".to_string()));
}

#[test]
fn reply_to_a_dropped_receiver_comes_back() {
    let (tx, rx) = oneshot::channel();
    drop(rx);
    let req = assemble_req("GET".to_string(), "u".to_string(), vec![], vec![], vec![], None);
    let params = Params::new("c".to_string(), "h".to_string(), req, tx);
    let res = Res::new(204, vec![], None);
    let back = params.complete(Ok(res)).unwrap_err();
    assert_eq!(back.unwrap().status, 204);
}

#[test]
fn error_status_codes_follow_the_taxonomy() {
    assert_eq!(AppError::HostNotFound("h".to_string()).status_code(), 404);
    assert_eq!(AppError::RoutePathNotFound("/p".to_string()).status_code(), 404);
    assert_eq!(AppError::RouteMethodNotAllowed("POST".to_string()).status_code(), 405);
    assert_eq!(AppError::Worker(WorkerError::HandlerMissing("h".to_string())).status_code(), 500);
    assert_eq!(AppError::Worker(WorkerError::InvalidResponseShape).status_code(), 500);
    assert_eq!(AppError::ChannelClosed.status_code(), 500);
    assert_eq!(AppError::Internal("x".to_string()).status_code(), 500);
}

#[test]
fn assemble_req_carries_all_parts() {
    let req = assemble_req(
        "POST".to_string(),
        "http://h/p?a=b".to_string(),
        vec![("a".to_string(), "b".to_string())],
        vec![("id".to_string(), "7".to_string())],
        vec![("host".to_string(), "h".to_string())],
        Some("body".to_string()),
    );
    assert_eq!(req.method, "POST");
    assert_eq!(req.url, "http://h/p?a=b");
    assert_eq!(req.query, vec![("a".to_string(), "b".to_string())]);
    assert_eq!(req.params, vec![("id".to_string(), "7".to_string())]);
    assert_eq!(req.headers, vec![("host".to_string(), "h".to_string())]);
    assert_eq!(req.body, Some("body".to_string()));
}

#[test]
fn watcher_triggers_on_sources_and_manifest_only() {
    assert!(needs_swap(&vec!["/proj/src/main.ts".to_string()]));
    assert!(needs_swap(&vec!["/proj/lib.js".to_string()]));
    assert!(needs_swap(&vec!["/proj/config.yml".to_string()]));
    assert!(needs_swap(&vec!["config.yml".to_string()]));
    assert!(!needs_swap(&vec!["/proj/readme.md".to_string(), "/proj/other.yml".to_string()]));
    assert!(!needs_swap(&vec![]));
}

#[test]
fn run_defaults_to_port_3000() {
    let opts = RunOpts::default();
    assert_eq!(opts.port, 3000);
    let cmd = SubCommand::Run(RunOpts { port: 8080 });
    assert!(matches!(cmd, SubCommand::Run(r) if r.port == 8080));
}

#[test]
fn many_jobs_each_get_exactly_their_own_reply() {
    let mut receivers = Vec::new();
    for i in 0..100u16 {
        let (tx, rx) = oneshot::channel();
        let req = assemble_req("GET".to_string(), format!("/{}", i), vec![], vec![], vec![], None);
        let params = Params::new(format!("code-{}", i), format!("h{}", i), req, tx);
        let res = Res::new(100 + i, vec![], Some(format!("reply-{}", i)));
        params.complete(Ok(res)).unwrap();
        receivers.push((i, rx));
    }
    for (i, rx) in receivers {
        let got = rx.recv().unwrap().unwrap();
        assert_eq!(got.status, 100 + i);
        assert_eq!(got.body, Some(format!("reply-{}", i)));
    }
}

#[test]
fn error_messages_match_their_variants() {
    assert_eq!(AppError::HostNotFound("other".to_string()).message(), "Host not found: other");
    assert_eq!(AppError::RoutePathNotFound("/x".to_string()).message(), "Path not found: /x");
    assert_eq!(
        AppError::RouteMethodNotAllowed("POST".to_string()).message(),
        "Method not found: POST"
    );
    assert_eq!(
        AppError::Worker(WorkerError::HandlerMissing("greet".to_string())).message(),
        "Worker error: Handler not found: greet"
    );
    assert_eq!(AppError::ChannelClosed.message(), "Reply channel closed");
    assert_eq!(AppError::Internal("boom".to_string()).message(), "Internal error: boom");
    assert_eq!(WorkerError::InvalidResponseShape.message(), "Invalid response shape");
}

#[test]
fn bare_hidden_extension_files_do_not_trigger_swap() {
    assert!(!needs_swap(&vec![".ts".to_string()]));
    assert!(!needs_swap(&vec!["/proj/.ts".to_string()]));
    assert!(needs_swap(&vec!["/proj/a.ts".to_string()]));
}
