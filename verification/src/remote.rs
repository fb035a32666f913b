//! The conventions of the panel's remote API: how the daemon presents
//! itself, where each call goes, and how a paged listing is read to its end.
//!
//! Sending a request is the caller's work. What is sent, and when a paged
//! fetch is complete, is decided here.

use vstd::prelude::*;
use crate::encode::{decimal, to_decimal};
use crate::ident::{hyphenated, to_hyphenated};
use crate::path::SEPARATOR;
use crate::text::{ascii, bytes_of, to_vec, trim_end_matches, without_trailing};

pub mod pager;

verus! {

/// The media type that every request accepts.
pub const ACCEPT: &'static str = "application/vnd.pterodactyl.v1+json";

/// The time that a request may take, in seconds.
pub const TIMEOUT_SECS: u64 = 15;

/// The method of a request.
#[derive(Clone, Copy, Debug, PartialEq, Eq, Structural)]
pub enum Method {
    Get,
    Post,
}

/// How an SFTP login proves itself.
#[derive(Clone, Copy, Debug, PartialEq, Eq, Structural)]
pub enum AuthenticationType {
    Password,
    PublicKey,
}

/// What a call carries in its body.
#[derive(Clone, Copy, Debug, PartialEq, Eq, Structural)]
pub enum Body {
    /// Nothing.
    Empty,
    /// How an installation ended: `{successful, reinstalled}`.
    InstallStatus { successful: bool, reinstalled: bool },
    /// How a restore ended: `{successful}`.
    RestoreStatus { successful: bool },
    /// The size of the backup that is to be uploaded: `{size}`.
    UploadSize { size: u64 },
    /// A login: `{type, username, password}`, with the name and the secret
    /// that the caller holds.
    SftpAuth { kind: AuthenticationType },
    /// The report on a backup, which the caller holds.
    BackupStatus,
    /// A batch of activity, which the caller holds.
    Activity,
}

/// A call to the panel: its method, its full address, and what it carries.
#[derive(Clone, Debug, PartialEq, Eq)]
pub struct Request {
    pub method: Method,
    pub url: Vec<u8>,
    pub body: Body,
}

impl AuthenticationType {
    /// The name of the kind in the body of the login request.
    pub fn name(self) -> (r: &'static str)
        ensures
            r == match self {
                AuthenticationType::Password => "password",
                AuthenticationType::PublicKey => "public_key",
            },
    {
        match self {
            AuthenticationType::Password => "password",
            AuthenticationType::PublicKey => "public_key",
        }
    }
}

/// The root of the remote API for a panel at `remote`: the panel's address
/// without trailing slashes, then `/api/remote`.
pub open spec fn api_root(remote: Seq<u8>) -> Seq<u8> {
    without_trailing(remote, seq![SEPARATOR]) + ascii("/api/remote")
}

/// The `User-Agent` of the daemon.
pub open spec fn user_agent_for(version: Seq<u8>, token_id: Seq<u8>) -> Seq<u8> {
    ascii("Wings/v") + version + ascii(" (id:") + token_id + ascii(")")
}

/// The `Authorization` of the daemon: the bearer credential
/// `<token_id>.<token>`.
pub open spec fn authorization_for(token_id: Seq<u8>, token: Seq<u8>) -> Seq<u8> {
    ascii("Bearer ") + token_id + ascii(".") + token
}

/// The address of a call: the API root, a fixed piece, a uuid, and a fixed
/// tail, the last three as far as the call has them.
pub open spec fn address(root: Seq<u8>, head: &str, uuid: Option<u128>, tail: &str) -> Seq<u8> {
    root + ascii(head) + match uuid {
        Some(id) => hyphenated(id),
        None => Seq::empty(),
    } + ascii(tail)
}

/// What the daemon needs to talk to the panel.
#[derive(Clone, Debug, PartialEq, Eq)]
pub struct Client {
    /// The root of the remote API.
    pub url: Vec<u8>,
    /// The value of `User-Agent`.
    pub user_agent: Vec<u8>,
    /// The value of `Accept`.
    pub accept: &'static str,
    /// The value of `Authorization`.
    pub authorization: Vec<u8>,
    /// The time that a request may take, in seconds.
    pub timeout_secs: u64,
    /// Whether certificates that do not verify are accepted.
    pub ignore_certificate_errors: bool,
}

impl Client {
    /// The client for the panel at `remote`, for a daemon of the given
    /// version that holds the given token.
    pub fn new(
        remote: &[u8],
        token_id: &[u8],
        token: &[u8],
        version: &[u8],
        ignore_certificate_errors: bool,
    ) -> (r: Client)
        ensures
            r.url@ == api_root(remote@),
            r.user_agent@ == user_agent_for(version@, token_id@),
            r.accept == ACCEPT,
            r.authorization@ == authorization_for(token_id@, token@),
            r.timeout_secs == TIMEOUT_SECS,
            r.ignore_certificate_errors == ignore_certificate_errors,
    {
        proof {
            reveal_strlit("/api/remote");
            reveal_strlit("Wings/v");
            reveal_strlit(" (id:");
            reveal_strlit(")");
            reveal_strlit("Bearer ");
            reveal_strlit(".");
        }
        let slash: [u8; 1] = [SEPARATOR];
        assert(slash@ =~= seq![SEPARATOR]);
        let mut url = to_vec(trim_end_matches(remote, slash.as_slice()));
        url.extend_from_slice(bytes_of("/api/remote"));

        let mut user_agent = to_vec(bytes_of("Wings/v"));
        user_agent.extend_from_slice(version);
        user_agent.extend_from_slice(bytes_of(" (id:"));
        user_agent.extend_from_slice(token_id);
        user_agent.extend_from_slice(bytes_of(")"));

        let mut authorization = to_vec(bytes_of("Bearer "));
        authorization.extend_from_slice(token_id);
        authorization.extend_from_slice(bytes_of("."));
        authorization.extend_from_slice(token);

        Client {
            url,
            user_agent,
            accept: ACCEPT,
            authorization,
            timeout_secs: TIMEOUT_SECS,
            ignore_certificate_errors,
        }
    }

    fn call(&self, method: Method, head: &str, uuid: Option<u128>, tail: &str, body: Body) -> (r:
        Request)
        requires
            head.is_ascii(),
            tail.is_ascii(),
        ensures
            r.method == method,
            r.url@ == address(self.url@, head, uuid, tail),
            r.body == body,
    {
        let mut url = to_vec(self.url.as_slice());
        url.extend_from_slice(bytes_of(head));
        match uuid {
            Some(id) => {
                url.extend_from_slice(to_hyphenated(id).as_slice());
            },
            None => {
                assert(url@ + Seq::<u8>::empty() =~= url@);
            },
        }
        url.extend_from_slice(bytes_of(tail));
        Request { method, url, body }
    }

    /// The call that fetches one page of the servers of this node.
    pub fn servers(&self, page: u64) -> (r: Request)
        ensures
            r.method == Method::Get,
            r.url@ == self.url@ + ascii("/servers?page=") + decimal(page as nat),
            r.body == Body::Empty,
    {
        proof {
            reveal_strlit("/servers?page=");
        }
        let mut url = to_vec(self.url.as_slice());
        url.extend_from_slice(bytes_of("/servers?page="));
        url.extend_from_slice(to_decimal(page).as_slice());
        Request { method: Method::Get, url, body: Body::Empty }
    }

    /// The call that fetches one server.
    pub fn server(&self, uuid: u128) -> (r: Request)
        ensures
            r.method == Method::Get,
            r.url@ == address(self.url@, "/servers/", Some(uuid), ""),
            r.body == Body::Empty,
    {
        proof {
            reveal_strlit("/servers/");
            reveal_strlit("");
        }
        self.call(Method::Get, "/servers/", Some(uuid), "", Body::Empty)
    }

    /// The call that fetches the installation script of a server.
    pub fn server_install_script(&self, uuid: u128) -> (r: Request)
        ensures
            r.method == Method::Get,
            r.url@ == address(self.url@, "/servers/", Some(uuid), "/install"),
            r.body == Body::Empty,
    {
        proof {
            reveal_strlit("/servers/");
            reveal_strlit("/install");
        }
        self.call(Method::Get, "/servers/", Some(uuid), "/install", Body::Empty)
    }

    /// The call that reports how an installation ended.
    pub fn set_server_install(&self, uuid: u128, successful: bool, reinstalled: bool) -> (r:
        Request)
        ensures
            r.method == Method::Post,
            r.url@ == address(self.url@, "/servers/", Some(uuid), "/install"),
            r.body == (Body::InstallStatus { successful, reinstalled }),
    {
        proof {
            reveal_strlit("/servers/");
            reveal_strlit("/install");
        }
        self.call(
            Method::Post,
            "/servers/",
            Some(uuid),
            "/install",
            Body::InstallStatus { successful, reinstalled },
        )
    }

    /// The call that reports how a transfer ended: its address says whether
    /// it succeeded.
    pub fn set_server_transfer(&self, uuid: u128, successful: bool) -> (r: Request)
        ensures
            r.method == Method::Post,
            r.url@ == address(
                self.url@,
                "/servers/",
                Some(uuid),
                if successful {
                    "/transfer/success"
                } else {
                    "/transfer/failure"
                },
            ),
            r.body == Body::Empty,
    {
        proof {
            reveal_strlit("/servers/");
            reveal_strlit("/transfer/success");
            reveal_strlit("/transfer/failure");
        }
        if successful {
            self.call(Method::Post, "/servers/", Some(uuid), "/transfer/success", Body::Empty)
        } else {
            self.call(Method::Post, "/servers/", Some(uuid), "/transfer/failure", Body::Empty)
        }
    }

    /// The call that reports on a finished backup.
    pub fn set_backup_status(&self, uuid: u128) -> (r: Request)
        ensures
            r.method == Method::Post,
            r.url@ == address(self.url@, "/backups/", Some(uuid), ""),
            r.body == Body::BackupStatus,
    {
        proof {
            reveal_strlit("/backups/");
            reveal_strlit("");
        }
        self.call(Method::Post, "/backups/", Some(uuid), "", Body::BackupStatus)
    }

    /// The call that reports how the restore of a backup ended.
    pub fn set_backup_restore_status(&self, uuid: u128, successful: bool) -> (r: Request)
        ensures
            r.method == Method::Post,
            r.url@ == address(self.url@, "/backups/", Some(uuid), "/restore"),
            r.body == (Body::RestoreStatus { successful }),
    {
        proof {
            reveal_strlit("/backups/");
            reveal_strlit("/restore");
        }
        self.call(
            Method::Post,
            "/backups/",
            Some(uuid),
            "/restore",
            Body::RestoreStatus { successful },
        )
    }

    /// The call that asks for the addresses to upload a backup to.
    pub fn backup_upload_urls(&self, uuid: u128, size: u64) -> (r: Request)
        ensures
            r.method == Method::Post,
            r.url@ == address(self.url@, "/backups/", Some(uuid), "/upload-urls"),
            r.body == (Body::UploadSize { size }),
    {
        proof {
            reveal_strlit("/backups/");
            reveal_strlit("/upload-urls");
        }
        self.call(Method::Post, "/backups/", Some(uuid), "/upload-urls", Body::UploadSize { size })
    }

    /// The call that checks an SFTP login.
    pub fn get_sftp_auth(&self, kind: AuthenticationType) -> (r: Request)
        ensures
            r.method == Method::Post,
            r.url@ == address(self.url@, "/sftp/auth", None, ""),
            r.body == (Body::SftpAuth { kind }),
    {
        proof {
            reveal_strlit("/sftp/auth");
            reveal_strlit("");
        }
        self.call(Method::Post, "/sftp/auth", None, "", Body::SftpAuth { kind })
    }

    /// The call that delivers a batch of activity.
    pub fn send_activity(&self) -> (r: Request)
        ensures
            r.method == Method::Post,
            r.url@ == address(self.url@, "/activity", None, ""),
            r.body == Body::Activity,
    {
        proof {
            reveal_strlit("/activity");
            reveal_strlit("");
        }
        self.call(Method::Post, "/activity", None, "", Body::Activity)
    }
}

} // verus!
