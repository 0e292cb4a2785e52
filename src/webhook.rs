//! What the relay does with one webhook delivery: find the repository's
//! rooms, check the signature, and turn the event into chat commands.

use vstd::prelude::*;
use crate::config::{Config, RoomConfiguration, UsernameAliases};
use crate::html::{equal_text, push_char};
use crate::schema::{joined_lines, InitialPayload, PullRequestEvent, PushEvent, PushEventContext};
use crate::signature::{signature_check, text_of, verify_signature, RejectionError};
use crate::sender::OutboundMessage;
use std::collections::HashSet;
use vstd::string::StringSliceAdditionalSpecFns;

verus! {

broadcast use vstd::std_specs::hash::group_hash_axioms;

/// How long a pull request's number stays suppressed after its notification.
pub const DEDUP_WINDOW_SECS: u64 = 600;

/// `s` with each `here` written `her&#101;`, so that the chat server does not
/// read it as its own command; scanned from the left.
pub open spec fn defused(s: Seq<char>) -> Seq<char>
    decreases s.len(),
{
    if s.len() == 0 {
        Seq::empty()
    } else if s.len() >= 4 && s.subrange(0, 4) == "here"@ {
        "her&#101;"@ + defused(s.subrange(4, s.len() as int))
    } else {
        seq![s[0]] + defused(s.drop_first())
    }
}

/// Writes `input` so that the chat server shows it as typed.
pub fn defuse(input: &str) -> (r: String)
    ensures
        r@ == defused(input@),
{
    let n = input.unicode_len();
    let mut r = String::new();
    let mut i: usize = 0;
    assert(input@.subrange(0, n as int) =~= input@);
    while i < n
        invariant
            n == input@.len(),
            i <= n,
            r@ + defused(input@.subrange(i as int, n as int)) == defused(input@),
        decreases n - i,
    {
        let ghost rest = input@.subrange(i as int, n as int);
        if n - i >= 4 && equal_text(input.substring_char(i, i + 4), "here") {
            assert(rest.subrange(0, 4) =~= input@.subrange(i as int, i + 4));
            assert(rest.subrange(4, rest.len() as int) =~= input@.subrange(i + 4, n as int));
            let ghost before = r@;
            r.append("her&#101;");
            assert(before + defused(rest) =~= r@ + defused(input@.subrange(i + 4, n as int)));
            i = i + 4;
        } else {
            assert(!(rest.len() >= 4 && rest.subrange(0, 4) == "here"@)) by {
                if rest.len() >= 4 {
                    assert(rest.subrange(0, 4) =~= input@.subrange(i as int, i + 4));
                }
            }
            assert(rest.drop_first() =~= input@.subrange(i + 1, n as int));
            let ghost before = r@;
            push_char(&mut r, input.get_char(i));
            assert(before + defused(rest) =~= r@ + defused(input@.subrange(i + 1, n as int)));
            i = i + 1;
        }
    }
    assert(r@ + defused(input@.subrange(n as int, n as int)) =~= r@);
    r
}

/// The events that the relay acts on, by the name in a delivery's
/// event header.
#[derive(Debug, PartialEq, Eq, Structural, Clone, Copy)]
pub enum EventKind {
    Push,
    PullRequest,
    /// Accepted and ignored.
    Other,
}

pub open spec fn event_kind_spec(name: Seq<char>) -> EventKind {
    if name == "push"@ {
        EventKind::Push
    } else if name == "pull_request"@ {
        EventKind::PullRequest
    } else {
        EventKind::Other
    }
}

pub fn event_kind(name: &str) -> (r: EventKind)
    ensures
        r == event_kind_spec(name@),
{
    if equal_text(name, "push") {
        EventKind::Push
    } else if equal_text(name, "pull_request") {
        EventKind::PullRequest
    } else {
        EventKind::Other
    }
}

/// A command that shows `input` as HTML in `room`.
pub fn html_command(room: &str, input: &str) -> (r: OutboundMessage)
    ensures
        r@ == (Some(room@), defused(input@)),
{
    OutboundMessage::ChatCommand { room: room.to_owned(), command: defuse(input) }
}

/// The commands that show `text` in each of `rooms`, in order.
pub open spec fn commands_for(rooms: Seq<String>, text: Seq<char>) -> Seq<(Option<Seq<char>>, Seq<char>)> {
    rooms.map_values(|room: String| (Some(room@), defused(text)))
}

pub open spec fn views(messages: Seq<OutboundMessage>) -> Seq<(Option<Seq<char>>, Seq<char>)> {
    messages.map_values(|m: OutboundMessage| m@)
}

/// Appends the commands that show `text` in each of `rooms`.
fn push_commands(out: &mut Vec<OutboundMessage>, rooms: &Vec<String>, text: &str)
    ensures
        views(final(out)@) == views(old(out)@) + commands_for(rooms@, text@),
{
    let mut i: usize = 0;
    while i < rooms.len()
        invariant
            i <= rooms.len(),
            views(out@) == views(old(out)@) + commands_for(rooms@.subrange(0, i as int), text@),
        decreases rooms.len() - i,
    {
        let ghost before = out@;
        out.push(html_command(rooms[i].as_str(), text));
        assert(views(out@) =~= views(before).push(out@.last()@));
        assert(commands_for(rooms@.subrange(0, i + 1), text@) =~= commands_for(
            rooms@.subrange(0, i as int),
            text@,
        ).push((Some(rooms@[i as int]@), defused(text@))));
        i = i + 1;
    }
    assert(rooms@.subrange(0, rooms@.len() as int) =~= rooms@);
}

/// The repository's configuration, once the delivery's signature checks
/// out; `payload` is what the body says of the repository.
pub fn get_rooms<'a>(config: &'a Config, payload: &InitialPayload, signature: Option<&str>, body: &[u8]) -> (r:
    Result<&'a RoomConfiguration, RejectionError>)
    requires
        config.wf(),
    ensures
        ({
            let name = payload.repository.full_name@;
            match signature_check(vstd::utf8::encode_utf8(config.secret_spec(name)), text_of(signature), body@) {
                Ok(_) => r matches Ok(c) && *c == config.configuration_for(name),
                Err(e) => r == Err::<&RoomConfiguration, RejectionError>(e),
            }
        }),
{
    let full_name = payload.repository.full_name.as_str();
    let room_configuration = config.rooms_for(full_name);
    let secret = config.secret_for(full_name);
    match verify_signature(secret, signature, body) {
        Ok(()) => Ok(room_configuration),
        Err(e) => Err(e),
    }
}

/// The message text of a push, for full and for short rooms.
pub open spec fn push_text(event: PushEvent, ctx: PushEventContext) -> Seq<char> {
    "addhtmlbox "@ + joined_lines(event.header(), event.commit_lines(ctx))
}

pub open spec fn simple_push_text(event: PushEvent, ctx: PushEventContext) -> Seq<char> {
    "addhtmlbox "@ + joined_lines(event.header(), event.simple_commit_lines(ctx))
}

/// The commands for a push: none unless it went to the default branch.
pub open spec fn push_commands_spec(rooms: RoomConfiguration, event: PushEvent, ctx: PushEventContext) -> Seq<
    (Option<Seq<char>>, Seq<char>),
> {
    if event.is_to_default_branch_spec() {
        commands_for(rooms.rooms@, push_text(event, ctx)) + commands_for(
            rooms.simple_rooms@,
            simple_push_text(event, ctx),
        )
    } else {
        Seq::empty()
    }
}

pub fn handle_push_event(
    room_configuration: &RoomConfiguration,
    push_event: &PushEvent,
    ctx: &PushEventContext,
) -> (r: Vec<OutboundMessage>)
    ensures
        views(r@) == push_commands_spec(*room_configuration, *push_event, *ctx),
{
    let mut out: Vec<OutboundMessage> = Vec::new();
    if push_event.is_to_default_branch() {
        let mut text = String::from_str("addhtmlbox ");
        text.append(push_event.to_view(ctx).render().as_str());
        push_commands(&mut out, &room_configuration.rooms, text.as_str());
        let mut simple = String::from_str("addhtmlbox ");
        simple.append(push_event.to_simple_view(ctx).render().as_str());
        push_commands(&mut out, &room_configuration.simple_rooms, simple.as_str());
    }
    assert(views(out@) =~= push_commands_spec(*room_configuration, *push_event, *ctx));
    out
}

/// Pull-request actions that are not worth a message.
pub open spec fn is_ignored_action(action: Seq<char>) -> bool {
    action == "ready_for_review"@ || action == "labeled"@ || action == "unlabeled"@ || action
        == "converted_to_draft"@
}

pub fn is_ignored(action: &str) -> (r: bool)
    ensures
        r == is_ignored_action(action@),
{
    equal_text(action, "ready_for_review") || equal_text(action, "labeled") || equal_text(
        action,
        "unlabeled",
    ) || equal_text(action, "converted_to_draft")
}

/// What a pull-request event does to the set of suppressed numbers, and
/// whether it is let through.
pub open spec fn let_through(suppressed: Set<u32>, action: Seq<char>, number: u32) -> (Set<u32>, bool) {
    if is_ignored_action(action) || suppressed.contains(number) {
        (suppressed, false)
    } else {
        (suppressed.insert(number), true)
    }
}

/// Once a pull request's notification is let through, its number is held back
/// for the whole window: every later event for it is dropped, whatever its
/// action, and events for other numbers or the end of other windows do not
/// lift that; when its own window ends, it is let through again.
pub proof fn lemma_pull_request_window(
    suppressed: Set<u32>,
    action: Seq<char>,
    number: u32,
    later_action: Seq<char>,
    other: u32,
)
    requires
        !is_ignored_action(action),
        !suppressed.contains(number),
    ensures
        let_through(suppressed, action, number) == (suppressed.insert(number), true),
        let_through(suppressed.insert(number), later_action, number) == (suppressed.insert(number), false),
        other != number ==> let_through(suppressed.insert(number), later_action, other).0.contains(number),
        other != number ==> suppressed.insert(number).remove(other).contains(number),
        let_through(suppressed.insert(number).remove(number), action, number).1,
{
}

/// Pull-request numbers whose notification went out within the window.
pub struct PullRequestDedup {
    numbers: HashSet<u32>,
}

impl View for PullRequestDedup {
    type V = Set<u32>;

    closed spec fn view(&self) -> Set<u32> {
        self.numbers@
    }
}

impl PullRequestDedup {
    pub fn new() -> (r: PullRequestDedup)
        ensures
            r@ == Set::<u32>::empty(),
    {
        PullRequestDedup { numbers: HashSet::new() }
    }

    pub fn contains(&self, number: u32) -> (r: bool)
        ensures
            r == self@.contains(number),
    {
        self.numbers.contains(&number)
    }

    /// Lets an event for `number` through unless its action is ignored or the
    /// number is suppressed; a number let through is suppressed from now on.
    pub fn let_through(&mut self, action: &str, number: u32) -> (r: bool)
        ensures
            (final(self)@, r) == let_through(old(self)@, action@, number),
    {
        if is_ignored(action) {
            return false;
        }
        self.numbers.insert(number)
    }

    /// Ends the suppression of `number`, once its window is over.
    pub fn expire(&mut self, number: u32)
        ensures
            final(self)@ == old(self)@.remove(number),
    {
        self.numbers.remove(&number);
    }
}

/// The message text of a pull-request event.
pub open spec fn pull_request_text(event: PullRequestEvent, aliases: UsernameAliases) -> Seq<char> {
    "addhtmlbox "@ + event.html(aliases)
}

/// The commands for a pull-request event, if it is let through; the caller
/// ends the number's suppression after the window.
pub fn handle_pull_request(
    username_aliases: &UsernameAliases,
    skip_pull_requests: &mut PullRequestDedup,
    rooms: &Vec<String>,
    pull_request: &PullRequestEvent,
) -> (r: Option<Vec<OutboundMessage>>)
    ensures
        (final(skip_pull_requests)@, r is Some) == let_through(
            old(skip_pull_requests)@,
            pull_request.action@,
            pull_request.pull_request.number,
        ),
        r matches Some(m) ==> views(m@) == commands_for(
            rooms@,
            pull_request_text(*pull_request, *username_aliases),
        ),
{
    if !skip_pull_requests.let_through(pull_request.action.as_str(), pull_request.pull_request.number) {
        return None;
    }
    let mut text = String::from_str("addhtmlbox ");
    text.append(pull_request.render(username_aliases).as_str());
    let mut out: Vec<OutboundMessage> = Vec::new();
    push_commands(&mut out, rooms, text.as_str());
    assert(views(Seq::<OutboundMessage>::empty()) =~= Seq::empty());
    assert(views(out@) =~= commands_for(rooms@, text@));
    Some(out)
}

} // verus!
