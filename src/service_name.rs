//! Service names of the form `"<host>/<owner>/<repo>?env=<environment>"`, derived from
//! a repository's remote URL, or `"local/<directory>?env=<environment>"` without one.

use vstd::prelude::*;
use crate::error::{ErrorView, KeychainError};
use crate::model::{starts_with, text_of};
use crate::text::{
    find_text, first_index, has_prefix, replace_text, replaced, trim_suffixes, without_suffixes,
};

verus! {

/// The owner and name of a hosted repository.
#[derive(Debug, Clone, PartialEq, Eq)]
pub struct GitInfo {
    pub owner: String,
    pub name: String,
    /// `"<host>/<owner>/<name>"`.
    pub full_name: String,
}

pub struct GitInfoView {
    pub owner: Seq<char>,
    pub name: Seq<char>,
    pub full_name: Seq<char>,
}

impl View for GitInfo {
    type V = GitInfoView;

    open spec fn view(&self) -> GitInfoView {
        GitInfoView { owner: self.owner@, name: self.name@, full_name: self.full_name@ }
    }
}

/// What a URL parser reads from `text`: its path segments (`None` when the path does not
/// start with `/`) and its host; `None` when `text` is not a URL.
pub uninterp spec fn url_parts_of(text: Seq<char>) -> Option<(Option<Seq<Seq<char>>>, Option<Seq<char>>)>;

pub open spec fn url_parts_view(r: Option<(Option<Vec<String>>, Option<String>)>) -> Option<
    (Option<Seq<Seq<char>>>, Option<Seq<char>>),
> {
    match r {
        None => None,
        Some(p) => Some(
            (
                match p.0 {
                    Some(v) => Some(v@.map_values(|s: String| s@)),
                    None => None,
                },
                match p.1 {
                    Some(h) => Some(h@),
                    None => None,
                },
            ),
        ),
    }
}

/// Relies on `url::Url::parse`, and on `Url::path_segments` and `Url::host_str` of the
/// parsed URL: what they give depends on the text alone.
#[verifier::external_body]
fn url_parts(text: &str) -> (r: Option<(Option<Vec<String>>, Option<String>)>)
    ensures
        url_parts_view(r) == url_parts_of(text@),
{
    match url::Url::parse(text) {
        Ok(u) => Some(
            (u.path_segments().map(|p| p.map(String::from).collect()), u.host_str().map(String::from)),
        ),
        Err(_) => None,
    }
}

/// A remote URL in the form a URL parser takes: an SSH remote `git@host:owner/repo`
/// rewritten to `https://host/owner/repo`, and trailing `.git` removed.
pub open spec fn normalized_url(url: Seq<char>) -> Seq<char> {
    let https = if starts_with(url, "git@"@) {
        replaced(replaced(url, ":"@, "/"@), "git@"@, "https://"@)
    } else {
        url
    };
    without_suffixes(https, ".git"@)
}

/// The repository that a remote URL names: the last two path segments are owner and
/// name; the host defaults to `github.com`. A URL with fewer segments names none.
pub open spec fn git_info_of(url: Seq<char>) -> Result<Option<GitInfoView>, ErrorView> {
    let n = normalized_url(url);
    match url_parts_of(n) {
        None => Err(ErrorView::InvalidData("Failed to parse git URL: "@ + n)),
        Some(parts) => match parts.0 {
            None => Err(ErrorView::InvalidData("Invalid URL path"@)),
            Some(segs) => if segs.len() >= 2 {
                let owner = segs[segs.len() - 2];
                let name = segs[segs.len() - 1];
                let host = match parts.1 {
                    Some(h) => h,
                    None => "github.com"@,
                };
                Ok(Some(GitInfoView { owner, name, full_name: host + "/"@ + owner + "/"@ + name }))
            } else {
                Ok(None)
            },
        },
    }
}

pub open spec fn info_result_view(r: Result<Option<GitInfo>, KeychainError>) -> Result<Option<GitInfoView>, ErrorView> {
    match r {
        Ok(Some(g)) => Ok(Some(g@)),
        Ok(None) => Ok(None),
        Err(e) => Err(e@),
    }
}

/// The service name for `environment`: `"<full_name>?env=<environment>"` for a repository
/// with a usable remote, `"local/<directory>?env=<environment>"` otherwise, the directory
/// being `"unknown"` when it has no name.
pub open spec fn service_name_of(info: Result<Option<GitInfoView>, ErrorView>, dir_name: Option<Seq<char>>, environment: Seq<char>) -> Seq<char> {
    match info {
        Ok(Some(g)) => g.full_name + "?env="@ + environment,
        _ => "local/"@ + match dir_name {
            Some(d) => d,
            None => "unknown"@,
        } + "?env="@ + environment,
    }
}

/// The environment part of a service name: the text after the first `"?env="` up to the
/// next one; `"development"` when there is none.
pub open spec fn env_of_service(s: Seq<char>) -> Seq<char> {
    match first_index(s, "?env="@) {
        None => "development"@,
        Some(p) => {
            let rest = s.subrange(p + 5, s.len() as int);
            match first_index(rest, "?env="@) {
                None => rest,
                Some(q) => rest.subrange(0, q),
            }
        },
    }
}

/// The repository part of a service name: the text before the first `?`.
pub open spec fn repo_of_service(s: Seq<char>) -> Seq<char> {
    match first_index(s, "?"@) {
        None => s,
        Some(p) => s.subrange(0, p),
    }
}

/// Derives service names for the repository in a working directory, from the name of
/// that directory and the URL of the repository's remote, when it has one.
pub struct GitPathResolver {
    dir_name: Option<String>,
    remote_url: Option<String>,
}

pub struct ResolverView {
    pub dir_name: Option<Seq<char>>,
    pub remote_url: Option<Seq<char>>,
}

impl View for GitPathResolver {
    type V = ResolverView;

    closed spec fn view(&self) -> ResolverView {
        ResolverView { dir_name: text_of(self.dir_name), remote_url: text_of(self.remote_url) }
    }
}

impl GitPathResolver {
    /// A resolver for a directory named `dir_name` whose repository has the remote
    /// `remote_url`; `None` when the directory has no name, or is in no repository with a
    /// remote.
    pub fn new(dir_name: Option<String>, remote_url: Option<String>) -> (r: GitPathResolver)
        ensures
            r@ == (ResolverView { dir_name: text_of(dir_name), remote_url: text_of(remote_url) }),
    {
        GitPathResolver { dir_name, remote_url }
    }

    /// The repository that a remote URL names (see `git_info_of`).
    pub fn parse_git_url(&self, url_str: &str) -> (r: Result<Option<GitInfo>, KeychainError>)
        ensures
            info_result_view(r) == git_info_of(url_str@),
    {
        proof {
            reveal_strlit("git@");
            reveal_strlit(":");
            reveal_strlit("/");
            reveal_strlit("https://");
        }
        let https = if has_prefix(url_str, "git@") {
            let slashed = replace_text(url_str, ":", "/");
            replace_text(slashed.as_str(), "git@", "https://")
        } else {
            String::from_str(url_str)
        };
        let normalized = trim_suffixes(https.as_str(), ".git");
        match url_parts(normalized) {
            None => {
                let mut msg = String::from_str("Failed to parse git URL: ");
                msg.append(normalized);
                Err(KeychainError::InvalidData(msg))
            },
            Some(parts) => {
                let (segments, host) = parts;
                match segments {
                    None => Err(KeychainError::InvalidData(String::from_str("Invalid URL path"))),
                    Some(segs) => {
                        let len = segs.len();
                        if len >= 2 {
                            assert(segs@.map_values(|s: String| s@)[len - 2] == segs@[len - 2]@);
                            assert(segs@.map_values(|s: String| s@)[len - 1] == segs@[len - 1]@);
                            let owner = segs[len - 2].clone();
                            let name = segs[len - 1].clone();
                            let mut full_name = match host {
                                Some(h) => h,
                                None => String::from_str("github.com"),
                            };
                            full_name.append("/");
                            full_name.append(owner.as_str());
                            full_name.append("/");
                            full_name.append(name.as_str());
                            Ok(Some(GitInfo { owner, name, full_name }))
                        } else {
                            Ok(None)
                        }
                    },
                }
            },
        }
    }

    /// The repository of the working directory, read from its remote URL; `None` when
    /// there is no remote.
    pub fn get_git_info(&self) -> (r: Result<Option<GitInfo>, KeychainError>)
        ensures
            self@.remote_url is None ==> r matches Ok(None),
            self@.remote_url is Some ==> info_result_view(r) == git_info_of(self@.remote_url->0),
    {
        match &self.remote_url {
            Some(u) => self.parse_git_url(u.as_str()),
            None => Ok(None),
        }
    }

    /// The service name for `environment` (see `service_name_of`).
    pub fn generate_service_name(&self, environment: &str) -> (r: String)
        ensures
            r@ == service_name_of(
                match self@.remote_url {
                    Some(u) => git_info_of(u),
                    None => Ok(None),
                },
                self@.dir_name,
                environment@,
            ),
    {
        let info = self.get_git_info();
        let mut s = match info {
            Ok(Some(g)) => g.full_name,
            _ => {
                let mut local = String::from_str("local/");
                match &self.dir_name {
                    Some(d) => local.append(d.as_str()),
                    None => local.append("unknown"),
                }
                local
            },
        };
        s.append("?env=");
        s.append(environment);
        s
    }

    /// The environment part of a service name (see `env_of_service`).
    pub fn extract_env_from_service(service_name: &str) -> (r: String)
        ensures
            r@ == env_of_service(service_name@),
    {
        proof {
            reveal_strlit("?env=");
        }
        match find_text(service_name, "?env=") {
            None => String::from_str("development"),
            Some(p) => {
                let n = service_name.unicode_len();
                let rest = service_name.substring_char(p + 5, n);
                match find_text(rest, "?env=") {
                    None => String::from_str(rest),
                    Some(q) => {
                        String::from_str(rest.substring_char(0, q))
                    },
                }
            },
        }
    }

    /// The repository part of a service name (see `repo_of_service`).
    pub fn extract_repo_from_service(service_name: &str) -> (r: String)
        ensures
            r@ == repo_of_service(service_name@),
    {
        proof {
            reveal_strlit("?");
        }
        match find_text(service_name, "?") {
            None => String::from_str(service_name),
            Some(p) => {
                String::from_str(service_name.substring_char(0, p))
            },
        }
    }
}

} // verus!
