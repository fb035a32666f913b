use wings_core::remote::pager::{fetch_all, Page, Pager};
use wings_core::remote::{
    AuthenticationType, Body, Client, Method, Request, ACCEPT, TIMEOUT_SECS,
};

const SERVER: u128 = 0x550e8400_e29b_41d4_a716_446655440000;

fn b(s: &str) -> Vec<u8> {
    s.as_bytes().to_vec()
}

fn client() -> Client {
    Client::new(b"https://panel.example.com/", b"tokenid", b"SECRET-REDACTED", b"1.11.0", false)
}

type Answer<T> = Result<Page<T>, &'static str>;

fn page(data: &[&'static str], current_page: u64, last_page: u64) -> Answer<&'static str> {
    Ok(Page { data: data.to_vec(), current_page, last_page })
}

#[test]
fn client_presents_itself() {
    let c = client();
    assert_eq!(c.url, b("https://panel.example.com/api/remote"));
    assert_eq!(c.user_agent, b("Wings/v1.11.0 (id:tokenid)"));
    assert_eq!(c.accept, "application/vnd.pterodactyl.v1+json");
    assert_eq!(c.accept, ACCEPT);
    assert_eq!(c.authorization, b("Bearer tokenid.SECRET-REDACTED"));
    assert_eq!(c.timeout_secs, 15);
    assert_eq!(TIMEOUT_SECS, 15);
    assert!(!c.ignore_certificate_errors);
}

#[test]
fn client_trims_every_trailing_slash() {
    for remote in ["http://panel", "http://panel/", "http://panel///"] {
        let c = Client::new(remote.as_bytes(), b"i", b"t", b"0", true);
        assert_eq!(c.url, b("http://panel/api/remote"));
        assert!(c.ignore_certificate_errors);
    }
    let c = Client::new(b"", b"", b"", b"", false);
    assert_eq!(c.url, b("/api/remote"));
    assert_eq!(c.user_agent, b("Wings/v (id:)"));
    assert_eq!(c.authorization, b("Bearer ."));
}

#[test]
fn calls_about_servers() {
    let c = client();
    let root = "https://panel.example.com/api/remote";
    let id = "550e8400-e29b-41d4-a716-446655440000";
    assert_eq!(
        c.servers(1),
        Request { method: Method::Get, url: b(&format!("{root}/servers?page=1")), body: Body::Empty }
    );
    assert_eq!(
        c.servers(250),
        Request { method: Method::Get, url: b(&format!("{root}/servers?page=250")), body: Body::Empty }
    );
    assert_eq!(
        c.server(SERVER),
        Request { method: Method::Get, url: b(&format!("{root}/servers/{id}")), body: Body::Empty }
    );
    assert_eq!(
        c.server_install_script(SERVER),
        Request { method: Method::Get, url: b(&format!("{root}/servers/{id}/install")), body: Body::Empty }
    );
    assert_eq!(
        c.set_server_install(SERVER, true, false),
        Request { method: Method::Post, url: b(&format!("{root}/servers/{id}/install")), body: Body::InstallStatus { successful: true, reinstalled: false } }
    );
    assert_eq!(
        c.set_server_transfer(SERVER, true),
        Request { method: Method::Post, url: b(&format!("{root}/servers/{id}/transfer/success")), body: Body::Empty }
    );
    assert_eq!(
        c.set_server_transfer(SERVER, false),
        Request { method: Method::Post, url: b(&format!("{root}/servers/{id}/transfer/failure")), body: Body::Empty }
    );
}

#[test]
fn calls_about_backups_logins_and_activity() {
    let c = client();
    let root = "https://panel.example.com/api/remote";
    let id = "550e8400-e29b-41d4-a716-446655440000";
    assert_eq!(
        c.set_backup_status(SERVER),
        Request { method: Method::Post, url: b(&format!("{root}/backups/{id}")), body: Body::BackupStatus }
    );
    assert_eq!(
        c.set_backup_restore_status(SERVER, false),
        Request { method: Method::Post, url: b(&format!("{root}/backups/{id}/restore")), body: Body::RestoreStatus { successful: false } }
    );
    assert_eq!(
        c.backup_upload_urls(SERVER, 5_000_000),
        Request { method: Method::Post, url: b(&format!("{root}/backups/{id}/upload-urls")), body: Body::UploadSize { size: 5_000_000 } }
    );
    assert_eq!(
        c.get_sftp_auth(AuthenticationType::PublicKey),
        Request { method: Method::Post, url: b(&format!("{root}/sftp/auth")), body: Body::SftpAuth { kind: AuthenticationType::PublicKey } }
    );
    assert_eq!(
        c.send_activity(),
        Request { method: Method::Post, url: b(&format!("{root}/activity")), body: Body::Activity }
    );
    assert_eq!(AuthenticationType::Password.name(), "password");
    assert_eq!(AuthenticationType::PublicKey.name(), "public_key");
}

#[test]
fn pagination() {
    let answers = vec![page(&["A", "B"], 1, 3), page(&["C"], 2, 3), page(&["D"], 3, 3)];
    assert_eq!(fetch_all(answers), Ok(vec!["A", "B", "C", "D"]));
}

#[test]
fn pagination_asks_for_one_page_after_another() {
    let mut pager: Pager<&'static str> = Pager::new();
    assert_eq!(pager.next_page(), Some(1));
    pager.absorb(vec!["A", "B"], 1, 3);
    assert_eq!(pager.next_page(), Some(2));
    pager.absorb(vec!["C"], 2, 3);
    assert_eq!(pager.next_page(), Some(3));
    pager.absorb(vec!["D"], 3, 3);
    assert_eq!(pager.next_page(), None);
    pager.absorb(vec!["E"], 4, 3);
    assert_eq!(pager.next_page(), None);
    assert_eq!(pager.finish(), vec!["A", "B", "C", "D"]);
}

#[test]
fn pagination_stops_with_the_first_last_page() {
    let answers = vec![page(&["A"], 1, 1), page(&["B"], 2, 2)];
    assert_eq!(fetch_all(answers), Ok(vec!["A"]));
    let answers = vec![page(&["A"], 5, 3), page(&["B"], 6, 3)];
    assert_eq!(fetch_all(answers), Ok(vec!["A"]));
    let answers = vec![page(&[], 1, 0)];
    assert_eq!(fetch_all(answers), Ok(Vec::<&str>::new()));
}

#[test]
fn pagination_over_what_is_there() {
    assert_eq!(fetch_all(Vec::<Answer<u8>>::new()), Ok(Vec::<u8>::new()));
    let answers = vec![page(&["A"], 1, 9), page(&[], 2, 9), page(&["C"], 3, 9)];
    assert_eq!(fetch_all(answers), Ok(vec!["A", "C"]));
}

#[test]
fn pagination_passes_a_failure_on() {
    let answers = vec![page(&["A"], 1, 3), Err("timed out"), page(&["C"], 3, 3)];
    assert_eq!(fetch_all(answers), Err("timed out"));
    let answers = vec![Err("refused"), page(&["A"], 1, 1)];
    assert_eq!(fetch_all(answers), Err("refused"));
    let answers = vec![page(&["A"], 1, 2), page(&["B"], 2, 2), Err("never asked for")];
    assert_eq!(fetch_all(answers), Ok(vec!["A", "B"]));
    let answers = vec![page(&["A"], 1, 3), Err("first"), Err("second")];
    assert_eq!(fetch_all(answers), Err("first"));
}

#[test]
fn pagination_completeness_on_a_numbered_listing() {
    for last in 1..6u64 {
        let mut answers = Vec::new();
        let mut expected = Vec::new();
        for number in 1..=last + 2 {
            let data: Vec<u64> = (0..number % 3).map(|k| number * 10 + k).collect();
            if number <= last {
                expected.extend_from_slice(&data);
            }
            answers.push(Answer::Ok(Page { data, current_page: number, last_page: last }));
        }
        assert_eq!(fetch_all(answers), Ok(expected), "with {last} pages");
    }
}

#[test]
fn a_new_pager_has_collected_nothing() {
    let pager: Pager<u8> = Pager::new();
    assert_eq!(pager.next_page(), Some(1));
    assert_eq!(pager.finish(), Vec::<u8>::new());
}
