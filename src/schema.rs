//! The webhook payloads that the relay reads, and the HTML that it makes of
//! them.

use vstd::prelude::*;
use crate::config::UsernameAliases;
use vstd::string::StringSliceAdditionalSpecFns;
use vstd::utf8::{
    decode_utf8, encode_utf8, encode_utf8_decode_utf8, encode_utf8_valid_utf8, is_char_boundary,
    is_char_boundary_start_end_of_seq,
};
use crate::github_api::User;
use crate::html::{
    decimal, equal_text, escape, escaped, first_line, first_line_of, first_line_len, format_title,
    formatted_title, is_multiline, push_decimal,
};

verus! {

/// The part of every payload that names the repository.
pub struct InitialPayload {
    pub repository: InitialRepository,
}

pub struct InitialRepository {
    pub full_name: String,
}

pub struct PushEvent {
    pub git_ref: String,
    pub commits: Vec<Commit>,
    pub repository: Repository,
}

pub struct Commit {
    pub id: String,
    pub message: String,
    pub author: Author,
    pub url: String,
}

pub struct Author {
    pub name: String,
    /// The author's GitHub login, where GitHub knows it.
    pub username: Option<String>,
}

pub struct Repository {
    pub name: String,
    pub html_url: String,
    pub default_branch: String,
}

pub struct PullRequestEvent {
    pub action: String,
    pub pull_request: PullRequest,
    pub repository: Repository,
    pub sender: Sender,
}

pub struct PullRequest {
    pub number: u32,
    pub html_url: String,
    pub title: String,
}

pub struct Sender {
    pub login: String,
}

/// What rendering a push event needs besides the event: the profiles known
/// for commit authors, and the aliases of logins.
pub struct PushEventContext {
    pub profiles: Vec<(String, User)>,
    pub username_aliases: UsernameAliases,
}

/// Whether `git_ref` names a branch.
pub open spec fn is_branch_ref(git_ref: Seq<char>) -> bool {
    exists|b: Seq<char>| git_ref == "refs/heads/"@ + b
}

/// Marks a text that was cut at its first line break.
pub open spec fn ellipsis(s: Seq<char>) -> Seq<char> {
    if is_multiline(s) {
        "…"@
    } else {
        Seq::empty()
    }
}

fn push_ellipsis(out: &mut String, s: &str)
    ensures
        final(out)@ == old(out)@ + ellipsis(s@),
{
    if first_line_len(s) < s.unicode_len() {
        out.append("…");
    } else {
        assert(old(out)@ + ellipsis(s@) =~= old(out)@);
    }
}

/// Shorter names of the two main repositories.
pub open spec fn repository_alias(name: Seq<char>) -> Seq<char> {
    if name == "pokemon-showdown"@ {
        "server"@
    } else if name == "pokemon-showdown-client"@ {
        "client"@
    } else {
        name
    }
}

pub struct ViewRepository {
    pub name: String,
    pub html_url: String,
}

impl ViewRepository {
    pub open spec fn html(&self) -> Seq<char> {
        "[<a href='"@ + escaped(self.html_url@) + "'><font color=FF00FF>"@ + escaped(self.name@)
            + "</font></a>]"@
    }

    pub fn render(&self) -> (r: String)
        ensures
            r@ == self.html(),
    {
        let mut r = String::from_str("[<a href='");
        r.append(escape(self.html_url.as_str()).as_str());
        r.append("'><font color=FF00FF>");
        r.append(escape(self.name.as_str()).as_str());
        r.append("</font></a>]");
        r
    }
}

impl Repository {
    pub fn to_view(&self) -> (r: ViewRepository)
        ensures
            r.name@ == repository_alias(self.name@),
            r.html_url@ == self.html_url@,
    {
        let name = if equal_text(self.name.as_str(), "pokemon-showdown") {
            String::from_str("server")
        } else if equal_text(self.name.as_str(), "pokemon-showdown-client") {
            String::from_str("client")
        } else {
            self.name.clone()
        };
        ViewRepository { name, html_url: self.html_url.clone() }
    }
}

pub struct ViewSender {
    pub login: String,
    pub renamed_login: String,
}

impl ViewSender {
    pub open spec fn html(&self) -> Seq<char> {
        "<a href='https://github.com/"@ + escaped(self.login@) + "'><font color='909090'>"@
            + escaped(self.renamed_login@) + "</font></a>"@
    }

    pub fn render(&self) -> (r: String)
        ensures
            r@ == self.html(),
    {
        let mut r = String::from_str("<a href='https://github.com/");
        r.append(escape(self.login.as_str()).as_str());
        r.append("'><font color='909090'>");
        r.append(escape(self.renamed_login.as_str()).as_str());
        r.append("</font></a>");
        r
    }
}

impl Sender {
    pub fn to_view(&self, username_aliases: &UsernameAliases) -> (r: ViewSender)
        ensures
            r.login@ == self.login@,
            r.renamed_login@ == username_aliases.display_name(self.login@),
    {
        ViewSender { login: self.login.clone(), renamed_login: username_aliases.get(self.login.as_str()) }
    }
}

impl PullRequest {
    /// A title shows its first line only.
    pub open spec fn html(&self) -> Seq<char> {
        "<a href='"@ + escaped(self.html_url@) + "'>PR#"@ + decimal(self.number as nat) + "</a>: "@
            + escaped(first_line(self.title@)) + ellipsis(self.title@)
    }

    pub fn render(&self) -> (r: String)
        ensures
            r@ == self.html(),
    {
        let mut r = String::from_str("<a href='");
        r.append(escape(self.html_url.as_str()).as_str());
        r.append("'>PR#");
        push_decimal(&mut r, self.number);
        r.append("</a>: ");
        r.append(escape(first_line_of(self.title.as_str())).as_str());
        push_ellipsis(&mut r, self.title.as_str());
        r
    }
}

/// How an action reads in a message.
pub open spec fn action_phrase(action: Seq<char>) -> Seq<char> {
    if action == "synchronize"@ {
        "updated"@
    } else if action == "review_requested"@ {
        "requested a review for"@
    } else {
        action
    }
}

pub struct ViewPullRequestEvent {
    pub action: String,
    pub pull_request: PullRequest,
    pub repository: ViewRepository,
    pub sender: ViewSender,
}

impl ViewPullRequestEvent {
    pub open spec fn html(&self) -> Seq<char> {
        self.repository.html() + " "@ + self.sender.html() + " "@ + escaped(self.action@) + " "@
            + self.pull_request.html()
    }

    pub fn render(&self) -> (r: String)
        ensures
            r@ == self.html(),
    {
        let mut r = self.repository.render();
        r.append(" ");
        r.append(self.sender.render().as_str());
        r.append(" ");
        r.append(escape(self.action.as_str()).as_str());
        r.append(" ");
        r.append(self.pull_request.render().as_str());
        r
    }
}

impl PullRequestEvent {
    pub fn to_view(&self, username_aliases: &UsernameAliases) -> (r: ViewPullRequestEvent)
        ensures
            r.action@ == action_phrase(self.action@),
            r.pull_request.number == self.pull_request.number,
            r.pull_request.html_url@ == self.pull_request.html_url@,
            r.pull_request.title@ == self.pull_request.title@,
            r.repository.name@ == repository_alias(self.repository.name@),
            r.repository.html_url@ == self.repository.html_url@,
            r.sender.login@ == self.sender.login@,
            r.sender.renamed_login@ == username_aliases.display_name(self.sender.login@),
    {
        let action = if equal_text(self.action.as_str(), "synchronize") {
            String::from_str("updated")
        } else if equal_text(self.action.as_str(), "review_requested") {
            String::from_str("requested a review for")
        } else {
            self.action.clone()
        };
        ViewPullRequestEvent {
            action,
            pull_request: PullRequest {
                number: self.pull_request.number,
                html_url: self.pull_request.html_url.clone(),
                title: self.pull_request.title.clone(),
            },
            repository: self.repository.to_view(),
            sender: self.sender.to_view(username_aliases),
        }
    }

    /// The message for this event, as its view renders it.
    pub open spec fn html(&self, aliases: UsernameAliases) -> Seq<char> {
        "[<a href='"@ + escaped(self.repository.html_url@) + "'><font color=FF00FF>"@ + escaped(
            repository_alias(self.repository.name@),
        ) + "</font></a>]"@ + " "@ + "<a href='https://github.com/"@ + escaped(self.sender.login@)
            + "'><font color='909090'>"@ + escaped(aliases.display_name(self.sender.login@))
            + "</font></a>"@ + " "@ + escaped(action_phrase(self.action@)) + " "@ + self.pull_request.html()
    }

    pub fn render(&self, username_aliases: &UsernameAliases) -> (r: String)
        ensures
            r@ == self.html(*username_aliases),
    {
        let view = self.to_view(username_aliases);
        view.render()
    }
}

/// A login with the profile that GitHub gave for it, if any.
pub struct Username {
    pub username: String,
    pub github_metadata: Option<User>,
}

impl Username {
    pub open spec fn html(&self) -> Seq<char> {
        match self.github_metadata {
            Some(user) => "<a href='"@ + escaped(user.html_url@) + "'>"@ + escaped(self.username@)
                + "</a>"@,
            None => escaped(self.username@),
        }
    }

    pub fn render(&self) -> (r: String)
        ensures
            r@ == self.html(),
    {
        match &self.github_metadata {
            Some(user) => {
                let mut r = String::from_str("<a href='");
                r.append(escape(user.html_url.as_str()).as_str());
                r.append("'>");
                r.append(escape(self.username.as_str()).as_str());
                r.append("</a>");
                r
            },
            None => escape(self.username.as_str()),
        }
    }
}

pub struct ViewAuthor {
    pub name: String,
    pub username: Option<Username>,
}

impl ViewAuthor {
    pub open spec fn html(&self) -> Seq<char> {
        match self.username {
            Some(u) => "<font color=909090 title=\""@ + escaped(self.name@) + "\">("@ + u.html()
                + ")</font>"@,
            None => "<font color=909090>"@ + escaped(self.name@) + "</font>"@,
        }
    }

    pub fn render(&self) -> (r: String)
        ensures
            r@ == self.html(),
    {
        match &self.username {
            Some(u) => {
                let mut r = String::from_str("<font color=909090 title=\"");
                r.append(escape(self.name.as_str()).as_str());
                r.append("\">(");
                r.append(u.render().as_str());
                r.append(")</font>");
                r
            },
            None => {
                let mut r = String::from_str("<font color=909090>");
                r.append(escape(self.name.as_str()).as_str());
                r.append("</font>");
                r
            },
        }
    }
}

/// The profile recorded first for `login`.
pub open spec fn profile_for(profiles: Seq<(String, User)>, login: Seq<char>) -> Option<User>
    decreases profiles.len(),
{
    if profiles.len() == 0 {
        None
    } else if profiles[0].0@ == login {
        Some(profiles[0].1)
    } else {
        profile_for(profiles.drop_first(), login)
    }
}

fn find_profile(profiles: &Vec<(String, User)>, login: &str) -> (r: Option<User>)
    ensures
        match profile_for(profiles@, login@) {
            Some(u) => r matches Some(v) && v.html_url@ == u.html_url@,
            None => r is None,
        },
{
    let mut i: usize = 0;
    assert(profiles@.subrange(0, profiles@.len() as int) =~= profiles@);
    while i < profiles.len()
        invariant
            i <= profiles.len(),
            profile_for(profiles@, login@) == profile_for(profiles@.subrange(i as int, profiles@.len() as int), login@),
        decreases profiles.len() - i,
    {
        assert(profiles@.subrange(i as int, profiles@.len() as int).drop_first() =~= profiles@.subrange(i + 1, profiles@.len() as int));
        if equal_text(profiles[i].0.as_str(), login) {
            return Some(User { html_url: profiles[i].1.html_url.clone() });
        }
        i = i + 1;
    }
    None
}

impl Author {
    /// The author's name, with the login shown under its alias and linked to
    /// the profile known for the login itself.
    pub open spec fn html(&self, ctx: PushEventContext) -> Seq<char> {
        match self.username {
            Some(login) => "<font color=909090 title=\""@ + escaped(self.name@) + "\">("@ + match profile_for(
                ctx.profiles@,
                login@,
            ) {
                Some(user) => "<a href='"@ + escaped(user.html_url@) + "'>"@ + escaped(
                    ctx.username_aliases.display_name(login@),
                ) + "</a>"@,
                None => escaped(ctx.username_aliases.display_name(login@)),
            } + ")</font>"@,
            None => "<font color=909090>"@ + escaped(self.name@) + "</font>"@,
        }
    }

    pub fn to_view(&self, ctx: &PushEventContext) -> (r: ViewAuthor)
        ensures
            r.html() == self.html(*ctx),
    {
        let username = match &self.username {
            Some(login) => Some(
                Username {
                    username: ctx.username_aliases.get(login.as_str()),
                    github_metadata: find_profile(&ctx.profiles, login.as_str()),
                },
            ),
            None => None,
        };
        ViewAuthor { name: self.name.clone(), username }
    }
}

/// The largest character boundary of `bytes` that is at most `k`.
pub open spec fn boundary_at_most(bytes: Seq<u8>, k: int) -> int
    decreases k,
{
    if k <= 0 {
        0
    } else if is_char_boundary(bytes, k) {
        k
    } else {
        boundary_at_most(bytes, k - 1)
    }
}

/// How many bytes of an id the shortened id keeps: 6, or all of a shorter
/// id; where byte 6 falls inside a character, the bytes before that character.
pub open spec fn short_id_len(bytes: Seq<u8>) -> int {
    boundary_at_most(bytes, if bytes.len() < 6 { bytes.len() as int } else { 6 })
}

/// The shortened commit id, as characters.
pub open spec fn short_id(id: Seq<char>) -> Seq<char> {
    decode_utf8(encode_utf8(id).subrange(0, short_id_len(encode_utf8(id))))
}

/// The id's first 6 bytes, as [`short_id_len`] says.
pub fn shorten_id(id: &str) -> (r: String)
    ensures
        encode_utf8(r@) == encode_utf8(id@).subrange(0, short_id_len(encode_utf8(id@))),
        r@ == short_id(id@),
{
    let ghost bytes = encode_utf8(id@);
    proof {
        encode_utf8_valid_utf8(id@);
        is_char_boundary_start_end_of_seq(bytes);
    }
    let n = id.as_bytes().len();
    let mut k: usize = if n < 6 { n } else { 6 };
    while k > 0 && !id.is_char_boundary(k)
        invariant
            k <= n,
            n == bytes.len(),
            bytes == id.spec_bytes(),
            short_id_len(bytes) == boundary_at_most(bytes, k as int),
        decreases k,
    {
        k = k - 1;
    }
    let (head, _) = id.split_at(k);
    proof {
        encode_utf8_decode_utf8(head@);
        assert(encode_utf8(head@) == bytes.subrange(0, k as int));
    }
    head.to_owned()
}

pub struct ViewCommit {
    /// The commit id, shortened.
    pub id: String,
    /// The first line of the message.
    pub message: String,
    pub full_message: String,
    /// The first line, escaped, with issue references linked.
    pub formatted_message: String,
    pub author: ViewAuthor,
    pub url: String,
}

impl ViewCommit {
    pub open spec fn html(&self) -> Seq<char> {
        "<a href='"@ + escaped(self.url@) + "'><font color=606060><kbd>"@ + escaped(self.id@)
            + "</kbd></font></a>\n<span title='"@ + escaped(self.full_message@) + "'>"@
            + self.formatted_message@ + ellipsis(self.full_message@) + "</span> "@ + self.author.html()
    }

    pub fn render(&self) -> (r: String)
        ensures
            r@ == self.html(),
    {
        let mut r = String::from_str("<a href='");
        r.append(escape(self.url.as_str()).as_str());
        r.append("'><font color=606060><kbd>");
        r.append(escape(self.id.as_str()).as_str());
        r.append("</kbd></font></a>\n<span title='");
        r.append(escape(self.full_message.as_str()).as_str());
        r.append("'>");
        r.append(self.formatted_message.as_str());
        push_ellipsis(&mut r, self.full_message.as_str());
        r.append("</span> ");
        r.append(self.author.render().as_str());
        r
    }
}

pub struct ViewSimpleCommit {
    pub message: String,
    pub full_message: String,
    pub author: ViewAuthor,
    pub url: String,
}

impl ViewSimpleCommit {
    pub open spec fn html(&self) -> Seq<char> {
        "<span title='"@ + escaped(self.full_message@) + "'><a href='"@ + escaped(self.url@) + "'>"@
            + escaped(self.message@) + ellipsis(self.full_message@) + "</a></span> "@ + self.author.html()
    }

    pub fn render(&self) -> (r: String)
        ensures
            r@ == self.html(),
    {
        let mut r = String::from_str("<span title='");
        r.append(escape(self.full_message.as_str()).as_str());
        r.append("'><a href='");
        r.append(escape(self.url.as_str()).as_str());
        r.append("'>");
        r.append(escape(self.message.as_str()).as_str());
        push_ellipsis(&mut r, self.full_message.as_str());
        r.append("</a></span> ");
        r.append(self.author.render().as_str());
        r
    }
}

impl Commit {
    /// The message's first line.
    pub fn short_message(&self) -> (r: &str)
        ensures
            r@ == first_line(self.message@),
    {
        first_line_of(self.message.as_str())
    }

    /// The commit as a line of a push message; `url` is the repository's,
    /// into which issue references link.
    pub open spec fn html(&self, url: Seq<char>, ctx: PushEventContext) -> Seq<char> {
        "<a href='"@ + escaped(self.url@) + "'><font color=606060><kbd>"@ + escaped(short_id(self.id@))
            + "</kbd></font></a>\n<span title='"@ + escaped(self.message@) + "'>"@ + formatted_title(
            first_line(self.message@),
            url,
        ) + ellipsis(self.message@) + "</span> "@ + self.author.html(ctx)
    }

    /// The commit as a line of a shorter push message.
    pub open spec fn simple_html(&self, ctx: PushEventContext) -> Seq<char> {
        "<span title='"@ + escaped(self.message@) + "'><a href='"@ + escaped(self.url@) + "'>"@
            + escaped(first_line(self.message@)) + ellipsis(self.message@) + "</a></span> "@
            + self.author.html(ctx)
    }

    pub fn to_view(&self, url: &str, ctx: &PushEventContext) -> (r: ViewCommit)
        ensures
            r.id@ == short_id(self.id@),
            encode_utf8(r.id@) == encode_utf8(self.id@).subrange(0, short_id_len(encode_utf8(self.id@))),
            encode_utf8(self.id@).len() >= 6 && is_char_boundary(encode_utf8(self.id@), 6) ==> encode_utf8(
                r.id@,
            ) == encode_utf8(self.id@).subrange(0, 6),
            r.message@ == first_line(self.message@),
            r.full_message@ == self.message@,
            r.formatted_message@ == formatted_title(first_line(self.message@), url@),
            r.author.html() == self.author.html(*ctx),
            r.url@ == self.url@,
            r.html() == self.html(url@, *ctx),
    {
        let message = self.short_message();
        let id = shorten_id(self.id.as_str());
        ViewCommit {
            id,
            message: message.to_owned(),
            full_message: self.message.clone(),
            formatted_message: format_title(message, url),
            author: self.author.to_view(ctx),
            url: self.url.clone(),
        }
    }

    pub fn to_simple_view(&self, ctx: &PushEventContext) -> (r: ViewSimpleCommit)
        ensures
            r.message@ == first_line(self.message@),
            r.full_message@ == self.message@,
            r.author.html() == self.author.html(*ctx),
            r.url@ == self.url@,
            r.html() == self.simple_html(*ctx),
    {
        ViewSimpleCommit {
            message: self.short_message().to_owned(),
            full_message: self.message.clone(),
            author: self.author.to_view(ctx),
            url: self.url.clone(),
        }
    }
}

/// Each line, after the repository's header, joined by line breaks.
pub open spec fn joined_lines(header: Seq<char>, lines: Seq<Seq<char>>) -> Seq<char>
    decreases lines.len(),
{
    if lines.len() == 0 {
        Seq::empty()
    } else if lines.len() == 1 {
        header + " "@ + lines[0]
    } else {
        joined_lines(header, lines.drop_last()) + "<br>"@ + header + " "@ + lines.last()
    }
}

pub struct ViewPushEvent {
    /// Each commit, rendered.
    pub commits: Vec<String>,
    pub repository: ViewRepository,
}

impl ViewPushEvent {
    pub open spec fn html(&self) -> Seq<char> {
        joined_lines(self.repository.html(), self.commits@.map_values(|c: String| c@))
    }

    pub fn render(&self) -> (r: String)
        ensures
            r@ == self.html(),
    {
        let header = self.repository.render();
        let mut r = String::new();
        let mut i: usize = 0;
        while i < self.commits.len()
            invariant
                i <= self.commits.len(),
                header@ == self.repository.html(),
                r@ == joined_lines(header@, self.commits@.map_values(|c: String| c@).subrange(0, i as int)),
            decreases self.commits.len() - i,
        {
            let ghost lines = self.commits@.map_values(|c: String| c@);
            assert(lines.subrange(0, i + 1).drop_last() =~= lines.subrange(0, i as int));
            if i > 0 {
                r.append("<br>");
            }
            r.append(header.as_str());
            r.append(" ");
            r.append(self.commits[i].as_str());
            i = i + 1;
        }
        assert(self.commits@.map_values(|c: String| c@).subrange(0, self.commits@.len() as int)
            =~= self.commits@.map_values(|c: String| c@));
        r
    }
}

impl PushEvent {
    /// The branch that was pushed to: the ref without `refs/heads/`; none for
    /// a ref outside `refs/heads/`, such as a tag.
    pub fn branch(&self) -> (r: Option<&str>)
        ensures
            match r {
                Some(b) => self.git_ref@ == "refs/heads/"@ + b@,
                None => !is_branch_ref(self.git_ref@),
            },
    {
        let git_ref = self.git_ref.as_str();
        let n = git_ref.unicode_len();
        proof {
            reveal_strlit("refs/heads/");
        }
        if n >= 11 && equal_text(git_ref.substring_char(0, 11), "refs/heads/") {
            let b = git_ref.substring_char(11, n);
            assert(self.git_ref@ =~= "refs/heads/"@ + b@);
            Some(b)
        } else {
            proof {
                if is_branch_ref(self.git_ref@) {
                    let b = choose|b: Seq<char>| self.git_ref@ == "refs/heads/"@ + b;
                    assert(self.git_ref@.subrange(0, 11) =~= "refs/heads/"@);
                }
            }
            None
        }
    }

    /// Whether the push went to the repository's default branch.
    pub open spec fn is_to_default_branch_spec(&self) -> bool {
        self.git_ref@ == "refs/heads/"@ + self.repository.default_branch@
    }

    pub fn is_to_default_branch(&self) -> (r: bool)
        ensures
            r == self.is_to_default_branch_spec(),
    {
        match self.branch() {
            Some(b) => {
                let r = equal_text(b, self.repository.default_branch.as_str());
                proof {
                    let p = "refs/heads/"@;
                    let d = self.repository.default_branch@;
                    if self.git_ref@ == p + d {
                        assert(b@ =~= (p + b@).subrange(p.len() as int, (p + b@).len() as int));
                        assert(d =~= (p + d).subrange(p.len() as int, (p + d).len() as int));
                    }
                }
                r
            },
            None => {
                proof {
                    if self.is_to_default_branch_spec() {
                        assert(is_branch_ref(self.git_ref@));
                    }
                }
                false
            },
        }
    }

    /// The lines of the push message, one for each commit, in order.
    pub open spec fn commit_lines(&self, ctx: PushEventContext) -> Seq<Seq<char>> {
        self.commits@.map_values(|c: Commit| c.html(self.repository.html_url@, ctx))
    }

    pub open spec fn simple_commit_lines(&self, ctx: PushEventContext) -> Seq<Seq<char>> {
        self.commits@.map_values(|c: Commit| c.simple_html(ctx))
    }

    pub open spec fn header(&self) -> Seq<char> {
        "[<a href='"@ + escaped(self.repository.html_url@) + "'><font color=FF00FF>"@ + escaped(
            repository_alias(self.repository.name@),
        ) + "</font></a>]"@
    }

    pub fn to_view(&self, ctx: &PushEventContext) -> (r: ViewPushEvent)
        ensures
            r.html() == joined_lines(self.header(), self.commit_lines(*ctx)),
    {
        let mut commits: Vec<String> = Vec::new();
        let mut i: usize = 0;
        while i < self.commits.len()
            invariant
                i <= self.commits.len(),
                commits@.len() == i,
                forall|k: int| 0 <= k < i ==> #[trigger] commits@[k]@ == self.commits@[k].html(
                    self.repository.html_url@,
                    *ctx,
                ),
            decreases self.commits.len() - i,
        {
            let view = self.commits[i].to_view(self.repository.html_url.as_str(), ctx);
            commits.push(view.render());
            i = i + 1;
        }
        let r = ViewPushEvent { commits, repository: self.repository.to_view() };
        assert(r.commits@.map_values(|c: String| c@) =~= self.commit_lines(*ctx));
        r
    }

    pub fn to_simple_view(&self, ctx: &PushEventContext) -> (r: ViewPushEvent)
        ensures
            r.html() == joined_lines(self.header(), self.simple_commit_lines(*ctx)),
    {
        let mut commits: Vec<String> = Vec::new();
        let mut i: usize = 0;
        while i < self.commits.len()
            invariant
                i <= self.commits.len(),
                commits@.len() == i,
                forall|k: int| 0 <= k < i ==> #[trigger] commits@[k]@ == self.commits@[k].simple_html(*ctx),
            decreases self.commits.len() - i,
        {
            let view = self.commits[i].to_simple_view(ctx);
            commits.push(view.render());
            i = i + 1;
        }
        let r = ViewPushEvent { commits, repository: self.repository.to_view() };
        assert(r.commits@.map_values(|c: String| c@) =~= self.simple_commit_lines(*ctx));
        r
    }
}


/// Whether `t` occurs in `s`.
pub open spec fn occurs_in(t: Seq<char>, s: Seq<char>) -> bool {
    exists|i: int| 0 <= i && i + t.len() <= s.len() && #[trigger] s.subrange(i, i + t.len()) == t
}

pub proof fn lemma_occurs_between(a: Seq<char>, t: Seq<char>, b: Seq<char>)
    ensures
        occurs_in(t, a + t + b),
{
    let s = a + t + b;
    assert(s.subrange(a.len() as int, (a.len() + t.len()) as int) =~= t);
}

/// A pull-request message names the repository, under its short name and
/// linked to it; names the sender under its alias, linked to the login's
/// profile; and links the pull request as `PR#` and its number, followed by
/// the first line of its title.
pub proof fn lemma_pull_request_message_parts(event: PullRequestEvent, aliases: UsernameAliases)
    ensures
        occurs_in(
            "[<a href='"@ + escaped(event.repository.html_url@) + "'><font color=FF00FF>"@ + escaped(
                repository_alias(event.repository.name@),
            ) + "</font></a>]"@,
            event.html(aliases),
        ),
        occurs_in(
            "<a href='https://github.com/"@ + escaped(event.sender.login@) + "'><font color='909090'>"@
                + escaped(aliases.display_name(event.sender.login@)) + "</font></a>"@,
            event.html(aliases),
        ),
        occurs_in(
            "<a href='"@ + escaped(event.pull_request.html_url@) + "'>PR#"@ + decimal(
                event.pull_request.number as nat,
            ) + "</a>: "@ + escaped(first_line(event.pull_request.title@)),
            event.html(aliases),
        ),
{
    let repo = "[<a href='"@ + escaped(event.repository.html_url@) + "'><font color=FF00FF>"@ + escaped(
        repository_alias(event.repository.name@),
    ) + "</font></a>]"@;
    let sender = "<a href='https://github.com/"@ + escaped(event.sender.login@) + "'><font color='909090'>"@
        + escaped(aliases.display_name(event.sender.login@)) + "</font></a>"@;
    let action = escaped(action_phrase(event.action@));
    let link = "<a href='"@ + escaped(event.pull_request.html_url@) + "'>PR#"@ + decimal(
        event.pull_request.number as nat,
    ) + "</a>: "@ + escaped(first_line(event.pull_request.title@));
    let tail = ellipsis(event.pull_request.title@);
    let h = event.html(aliases);
    assert(h =~= Seq::empty() + repo + (" "@ + sender + " "@ + action + " "@ + link + tail));
    lemma_occurs_between(Seq::empty(), repo, " "@ + sender + " "@ + action + " "@ + link + tail);
    assert(h =~= (repo + " "@) + sender + (" "@ + action + " "@ + link + tail));
    lemma_occurs_between(repo + " "@, sender, " "@ + action + " "@ + link + tail);
    assert(h =~= (repo + " "@ + sender + " "@ + action + " "@) + link + tail);
    lemma_occurs_between(repo + " "@ + sender + " "@ + action + " "@, link, tail);
}

/// A commit's line shows the shortened id, the escaped first line of the
/// message (with no ellipsis when the message has one line), and the
/// escaped author name; where the author has a login, the login under its
/// alias, escaped.
pub proof fn lemma_commit_line_parts(commit: Commit, url: Seq<char>, ctx: PushEventContext)
    ensures
        occurs_in(escaped(short_id(commit.id@)), commit.html(url, ctx)),
        occurs_in(formatted_title(first_line(commit.message@), url), commit.html(url, ctx)),
        !is_multiline(commit.message@) ==> ellipsis(commit.message@) == Seq::<char>::empty(),
        occurs_in(escaped(commit.author.name@), commit.html(url, ctx)),
        commit.author.username matches Some(login) ==> occurs_in(
            escaped(ctx.username_aliases.display_name(login@)),
            commit.html(url, ctx),
        ),
{
    let id = escaped(short_id(commit.id@));
    let title = formatted_title(first_line(commit.message@), url);
    let c0 = "<a href='"@ + escaped(commit.url@) + "'><font color=606060><kbd>"@;
    let c1 = "</kbd></font></a>\n<span title='"@ + escaped(commit.message@) + "'>"@;
    let c2 = ellipsis(commit.message@) + "</span> "@;
    let author = commit.author.html(ctx);
    let h = commit.html(url, ctx);
    assert(h =~= c0 + id + (c1 + title + c2 + author));
    lemma_occurs_between(c0, id, c1 + title + c2 + author);
    assert(h =~= (c0 + id + c1) + title + (c2 + author));
    lemma_occurs_between(c0 + id + c1, title, c2 + author);
    assert(h =~= (c0 + id + c1 + title + c2) + author);
    lemma_author_parts(commit.author, ctx);
    if occurs_in(escaped(commit.author.name@), author) {
        lemma_occurs_after(c0 + id + c1 + title + c2, escaped(commit.author.name@), author);
    }
    if let Some(login) = commit.author.username {
        lemma_occurs_after(
            c0 + id + c1 + title + c2,
            escaped(ctx.username_aliases.display_name(login@)),
            author,
        );
    }
}

pub proof fn lemma_occurs_after(a: Seq<char>, t: Seq<char>, b: Seq<char>)
    requires
        occurs_in(t, b),
    ensures
        occurs_in(t, a + b),
{
    let i = choose|i: int| 0 <= i && i + t.len() <= b.len() && #[trigger] b.subrange(i, i + t.len()) == t;
    assert((a + b).subrange(a.len() + i, a.len() + i + t.len()) =~= b.subrange(i, i + t.len()));
}

/// An author's part of a commit line shows the escaped name and, where the
/// author has a login, the login under its alias, escaped.
pub proof fn lemma_author_parts(author: Author, ctx: PushEventContext)
    ensures
        occurs_in(escaped(author.name@), author.html(ctx)),
        author.username matches Some(login) ==> occurs_in(
            escaped(ctx.username_aliases.display_name(login@)),
            author.html(ctx),
        ),
{
    let h = author.html(ctx);
    let name = escaped(author.name@);
    match author.username {
        Some(login) => {
            let shown = escaped(ctx.username_aliases.display_name(login@));
            let open = "<font color=909090 title=\""@;
            match profile_for(ctx.profiles@, login@) {
                Some(user) => {
                    let link = "<a href='"@ + escaped(user.html_url@) + "'>"@;
                    assert(h =~= open + name + ("\">("@ + link + shown + "</a>"@ + ")</font>"@));
                    lemma_occurs_between(open, name, "\">("@ + link + shown + "</a>"@ + ")</font>"@);
                    assert(h =~= (open + name + "\">("@ + link) + shown + ("</a>"@ + ")</font>"@));
                    lemma_occurs_between(open + name + "\">("@ + link, shown, "</a>"@ + ")</font>"@);
                },
                None => {
                    assert(h =~= open + name + ("\">("@ + shown + ")</font>"@));
                    lemma_occurs_between(open, name, "\">("@ + shown + ")</font>"@);
                    assert(h =~= (open + name + "\">("@) + shown + ")</font>"@);
                    lemma_occurs_between(open + name + "\">("@, shown, ")</font>"@);
                },
            }
        },
        None => {
            assert(h =~= "<font color=909090>"@ + name + "</font>"@);
            lemma_occurs_between("<font color=909090>"@, name, "</font>"@);
        },
    }
}

} // verus!
