//! The event dispatcher and the command handler.
//!
//! The dispatcher consumes one transport event at a time, classifies it
//! (own-command, own-other, foreign-filterable, irrelevant) and answers with
//! a plan: the ordered transport actions to perform, each marked best-effort
//! or must-succeed, plus the command error if the command failed while the
//! plan was built. The surrounding program performs the actions and, when
//! every must-succeed step went through and no error is set, arms self-echo
//! suppression with `arm_skip`; the dispatcher itself arms it for filter
//! substitutions, speculatively, as a message that was never sent cannot
//! echo.

use vstd::prelude::*;

use crate::error::{UserBotError, UserBotErrorKind};
use crate::filters::{
    FilterView, Filters, channel_rows_spec, filter_matches, first_match_spec, id_above, make_fv,
    views_of,
};
use crate::text::{
    join_from, join_with_space, parse_i64, parse_i64_ok, parse_i64_val, split_spaces,
    split_spaces_spec, starts_with_seq, starts_with_str, verb_is, verb_spec,
};

verus! {

/// One attachment of a message: where its bytes live and its suggested name.
#[derive(Debug, PartialEq, Eq)]
pub struct Attachment {
    pub url: String,
    pub filename: String,
}

/// The message a command message replies to.
#[derive(Debug, PartialEq, Eq)]
pub struct ReferencedMessage {
    pub content: String,
    pub attachments: Vec<Attachment>,
}

/// One chat message, as the dispatcher sees it.
#[derive(Debug, PartialEq, Eq)]
pub struct Message {
    pub id: u64,
    pub channel_id: i64,
    pub author_id: u64,
    pub content: String,
    pub attachments: Vec<Attachment>,
    pub referenced_message: Option<ReferencedMessage>,
}

/// One transport event: a created message, or anything else (ignored).
#[derive(Debug, PartialEq, Eq)]
pub enum Event {
    MessageCreated(Message),
    Other,
}

/// One outbound transport operation.
#[derive(Debug, PartialEq, Eq)]
pub enum Action {
    Delete { channel_id: i64, message_id: u64 },
    SendText { channel_id: i64, body: String },
    SendFile { channel_id: i64, body: String, data: Vec<u8>, filename: String },
}

/// An action plus its failure policy: a failed must-succeed step aborts the
/// rest of the plan and the command fails; other failures are swallowed.
#[derive(Debug, PartialEq, Eq)]
pub struct Step {
    pub action: Action,
    pub must_succeed: bool,
}

/// What the dispatcher asks the transport to do for one event.
#[derive(Debug)]
pub struct Plan {
    pub steps: Vec<Step>,
    pub error: Option<UserBotError>,
    pub arm_on_success: bool,
}

pub open spec fn is_delete(a: Action, m: Message) -> bool {
    a == (Action::Delete { channel_id: m.channel_id, message_id: m.id })
}

pub open spec fn is_send_text(a: Action, channel_id: i64, body: Seq<char>) -> bool {
    match a {
        Action::SendText { channel_id: c, body: b } => c == channel_id && b@ == body,
        _ => false,
    }
}

pub open spec fn is_send_file(
    a: Action,
    channel_id: i64,
    body: Seq<char>,
    data: Seq<u8>,
    filename: Seq<char>,
) -> bool {
    match a {
        Action::SendFile { channel_id: c, body: b, data: d, filename: n } => c == channel_id && b@
            == body && d@ == data && n@ == filename,
        _ => false,
    }
}

/// The substitution post for a fired filter: its replacement as text, or as a
/// file carrying the blob under the stored name (or the literal "filter").
pub open spec fn is_substitution(a: Action, channel_id: i64, f: FilterView) -> bool {
    match f.data {
        Option::Some(d) => is_send_file(
            a,
            channel_id,
            f.replace,
            d,
            match f.filename {
                Option::Some(n) => n,
                Option::None => "filter"@,
            },
        ),
        Option::None => is_send_text(a, channel_id, f.replace),
    }
}

/// The fixed help text, reproduced with the literal `.` prefix.
pub open spec fn help_text_spec() -> Seq<char> {
    "**Discord Userbot**\n`.help` - Shows this message\n`.debug` - Show debug info about current message\n`.repeat n message` - Repeat `message` `n` times\n`.filter name` - Saves a filter with the message you're replying to for this channel\n`.filters` - List saved filters for this channel"@
}

fn help_text() -> (r: String)
    ensures
        r@ == help_text_spec(),
{
    String::from_str(
        "**Discord Userbot**\n`.help` - Shows this message\n`.debug` - Show debug info about current message\n`.repeat n message` - Repeat `message` `n` times\n`.filter name` - Saves a filter with the message you're replying to for this channel\n`.filters` - List saved filters for this channel",
    )
}

/// The acknowledgement posted after a filter is saved.
pub open spec fn ack_spec(name: Seq<char>) -> Seq<char> {
    "Filter `"@ + name + "` saved!"@
}

fn ack_text(name: &str) -> (r: String)
    ensures
        r@ == ack_spec(name@),
{
    let mut r = String::from_str("Filter `");
    r.append(name);
    r.append("` saved!");
    r
}

/// One line of the filter listing.
pub open spec fn filter_line_spec(f: FilterView) -> Seq<char> {
    "`"@ + f.search + "` - "@ + f.replace + " "@ + (if f.data is Some {
        ":paperclip:"@
    } else {
        ""@
    })
}

/// The listing's lines, one per filter, joined with newlines.
pub open spec fn listing_lines_spec(rows: Seq<FilterView>) -> Seq<char>
    decreases rows.len(),
{
    if rows.len() == 0 {
        Seq::empty()
    } else if rows.len() == 1 {
        filter_line_spec(rows[0])
    } else {
        filter_line_spec(rows[0]) + "\n"@ + listing_lines_spec(rows.skip(1))
    }
}

/// The whole body the filters command posts.
pub open spec fn listing_spec(rows: Seq<FilterView>) -> Seq<char> {
    "**Filters:**\n"@ + listing_lines_spec(rows)
}

proof fn lemma_listing_lines_push(rows: Seq<FilterView>, f: FilterView)
    ensures
        rows.len() == 0 ==> listing_lines_spec(rows.push(f)) == filter_line_spec(f),
        rows.len() > 0 ==> listing_lines_spec(rows.push(f)) == listing_lines_spec(rows) + "\n"@
            + filter_line_spec(f),
    decreases rows.len(),
{
    if rows.len() == 0 {
        assert(rows.push(f)[0] == f);
    } else if rows.len() == 1 {
        assert(rows.push(f)[0] == rows[0]);
        assert(rows.push(f).skip(1) =~= seq![f]);
        assert(listing_lines_spec(seq![f]) == filter_line_spec(f));
    } else {
        lemma_listing_lines_push(rows.skip(1), f);
        assert(rows.push(f)[0] == rows[0]);
        assert(rows.push(f).skip(1) =~= rows.skip(1).push(f));
    }
}

fn filter_line(f: &crate::filters::Filter) -> (r: String)
    ensures
        r@ == filter_line_spec(f@),
{
    let mut r = String::from_str("`");
    r.append(f.search.as_str());
    r.append("` - ");
    r.append(f.replace.as_str());
    r.append(" ");
    match &f.data {
        Some(_) => r.append(":paperclip:"),
        None => r.append(""),
    }
    r
}

fn render_listing(list: &Vec<crate::filters::Filter>) -> (r: String)
    ensures
        r@ == listing_spec(views_of(list@)),
{
    let ghost rows = views_of(list@);
    let mut r = String::from_str("**Filters:**\n");
    let mut i: usize = 0;
    while i < list.len()
        invariant
            rows == views_of(list@),
            rows.len() == list.len(),
            0 <= i <= list.len(),
            r@ == "**Filters:**\n"@ + listing_lines_spec(rows.subrange(0, i as int)),
        decreases list.len() - i,
    {
        proof {
            assert(rows[i as int] == list@[i as int]@);
            lemma_listing_lines_push(rows.subrange(0, i as int), rows[i as int]);
            assert(rows.subrange(0, i + 1) =~= rows.subrange(0, i as int).push(rows[i as int]));
        }
        if i > 0 {
            r.append("\n");
        }
        let line = filter_line(&list[i]);
        r.append(line.as_str());
        i += 1;
    }
    proof {
        assert(rows.subrange(0, rows.len() as int) =~= rows);
    }
    r
}

/// What the derived Debug rendering of a message shows.
pub uninterp spec fn debug_repr_of(m: Message) -> Seq<char>;

/// The body the debug command posts: the Debug rendering of the raw message
/// record, enclosed in a fenced code block.
pub open spec fn debug_text_of(m: Message) -> Seq<char> {
    "```\n"@ + debug_repr_of(m) + "\n```"@
}

/// Relies on the std format macro with the derived Debug implementation of
/// `Message`: the rendering is a function of the message value alone.
#[verifier::external_body]
fn debug_repr(m: &Message) -> (r: String)
    ensures
        r@ == debug_repr_of(*m),
{
    format!("{:?}", m)
}

fn render_debug(m: &Message) -> (r: String)
    ensures
        r@ == debug_text_of(*m),
{
    let mut r = String::from_str("```\n");
    let repr = debug_repr(m);
    r.append(repr.as_str());
    r.append("\n```");
    r
}

/// The steps of a successful repeat command: the propagating delete, then the
/// text posted once per counted repetition (none for a non-positive count).
pub open spec fn repeat_steps_ok(steps: Seq<Step>, m: Message, text: Seq<char>, count: int) -> bool {
    steps.len() == 1 + (if count > 0 {
        count
    } else {
        0
    }) && is_delete(steps[0].action, m) && steps[0].must_succeed && forall|i: int|
        1 <= i < steps.len() ==> is_send_text((#[trigger] steps[i]).action, m.channel_id, text)
            && steps[i].must_succeed
}

/// The plan is one propagating delete and the given command error.
pub open spec fn delete_then_fail(p: Plan, m: Message, kind: UserBotErrorKind) -> bool {
    p.steps@.len() == 1 && is_delete(p.steps@[0].action, m) && p.steps@[0].must_succeed && (
    p.error matches Option::Some(e) && e.spec_kind() == kind)
}

/// What the repeat command leaves behind.
pub open spec fn repeat_post(m: Message, p: Plan) -> bool {
    let t = split_spaces_spec(m.content@);
    if t.len() <= 1 {
        delete_then_fail(p, m, UserBotErrorKind::MissingParameter)
    } else if !parse_i64_ok(t[1]) {
        delete_then_fail(p, m, UserBotErrorKind::ParseError)
    } else {
        match m.referenced_message {
            Option::Some(rm) => repeat_steps_ok(
                p.steps@,
                m,
                rm.content@,
                parse_i64_val(t[1]),
            ) && p.error is None,
            Option::None => if t.len() >= 3 {
                repeat_steps_ok(p.steps@, m, join_with_space(t.skip(2)), parse_i64_val(t[1]))
                    && p.error is None
            } else {
                delete_then_fail(p, m, UserBotErrorKind::MissingParameter)
            },
        }
    }
}

/// What the filter command leaves behind: on success exactly the named
/// filter is appended (a blob exactly when the reply carries an attachment)
/// and the acknowledgement is posted best-effort; a missing reply or an empty
/// name is a missing parameter (a trigger is non-empty text); a failed
/// download or write leaves the catalog alone.
pub open spec fn filter_post(
    old_rows: Seq<FilterView>,
    new_rows: Seq<FilterView>,
    m: Message,
    p: Plan,
) -> bool {
    let name = join_with_space(split_spaces_spec(m.content@).skip(1));
    match m.referenced_message {
        Option::None => new_rows == old_rows && p.steps@.len() == 0 && (
        p.error matches Option::Some(e) && e.spec_kind() == UserBotErrorKind::MissingParameter),
        Option::Some(rm) => if name.len() == 0 {
            new_rows == old_rows && p.steps@.len() == 0 && (p.error matches Option::Some(e)
                && e.spec_kind() == UserBotErrorKind::MissingParameter)
        } else if p.error is None {
            (if rm.attachments.len() > 0 {
                exists|id: int, body: Seq<u8>|
                    new_rows == #[trigger] old_rows.push(
                        make_fv(
                            id,
                            m.channel_id as int,
                            name,
                            rm.content@,
                            Option::Some(rm.attachments[0].filename@),
                            Option::Some(body),
                        ),
                    ) && id_above(old_rows, id)
            } else {
                exists|id: int|
                    new_rows == #[trigger] old_rows.push(
                        make_fv(
                            id,
                            m.channel_id as int,
                            name,
                            rm.content@,
                            Option::None,
                            Option::None,
                        ),
                    ) && id_above(old_rows, id)
            }) && p.steps@.len() == 1 && is_send_text(
                p.steps@[0].action,
                m.channel_id,
                ack_spec(name),
            ) && !p.steps@[0].must_succeed
        } else {
            new_rows == old_rows && p.steps@.len() == 0 && (p.error matches Option::Some(e) && (
            e.spec_kind() == UserBotErrorKind::FetchFailed || e.spec_kind()
                == UserBotErrorKind::StorageWriteFailed) && (rm.attachments.len() == 0
                ==> e.spec_kind() == UserBotErrorKind::StorageWriteFailed))
        },
    }
}

/// What the filters command leaves behind.
pub open spec fn filters_post(rows: Seq<FilterView>, m: Message, p: Plan) -> bool {
    match p.error {
        Option::Some(e) => e.spec_kind() == UserBotErrorKind::StorageUnavailable && p.steps@.len()
            == 0,
        Option::None => p.steps@.len() == 2 && is_delete(p.steps@[0].action, m)
            && !p.steps@[0].must_succeed && is_send_text(
            p.steps@[1].action,
            m.channel_id,
            listing_spec(channel_rows_spec(rows, m.channel_id as int)),
        ) && p.steps@[1].must_succeed,
    }
}

/// Everything the command handler guarantees, by verb. Verbs outside the
/// vocabulary are silently accepted with an empty plan.
pub open spec fn command_post(
    old_rows: Seq<FilterView>,
    new_rows: Seq<FilterView>,
    prefix: Seq<char>,
    m: Message,
    p: Plan,
) -> bool {
    let v = verb_spec(split_spaces_spec(m.content@)[0], prefix);
    &&& v == "repeat"@ ==> repeat_post(m, p) && new_rows == old_rows
    &&& v == "debug"@ ==> new_rows == old_rows && p.error is None && p.steps@.len() == 2
        && is_delete(p.steps@[0].action, m) && !p.steps@[0].must_succeed && is_send_text(
        p.steps@[1].action,
        m.channel_id,
        debug_text_of(m),
    ) && p.steps@[1].must_succeed
    &&& v == "help"@ ==> new_rows == old_rows && p.error is None && p.steps@.len() == 2
        && is_delete(p.steps@[0].action, m) && !p.steps@[0].must_succeed && is_send_text(
        p.steps@[1].action,
        m.channel_id,
        help_text_spec(),
    ) && p.steps@[1].must_succeed
    &&& v == "filter"@ ==> filter_post(old_rows, new_rows, m, p)
    &&& v == "filters"@ ==> filters_post(old_rows, m, p) && new_rows == old_rows
    &&& (v != "repeat"@ && v != "debug"@ && v != "help"@ && v != "filter"@ && v != "filters"@)
        ==> new_rows == old_rows && p.steps@.len() == 0 && p.error is None
    &&& p.arm_on_success == (p.error is None)
}

/// What the dispatcher does with a foreign message: at most one post; a post
/// is exactly the substitution for the first stored filter that fires; when
/// none fires, nothing is posted; and when one fires, the post is owed unless
/// reading the store failed, which the plan then reports.
pub open spec fn foreign_post(rows: Seq<FilterView>, m: Message, p: Plan) -> bool {
    &&& p.steps@.len() <= 1
    &&& p.steps@.len() == 1 ==> (first_match_spec(rows, m.channel_id as int, m.content@)
        matches Option::Some(f) && is_substitution(p.steps@[0].action, m.channel_id, f)
        && !p.steps@[0].must_succeed)
    &&& first_match_spec(rows, m.channel_id as int, m.content@) is None ==> p.steps@.len() == 0
    &&& first_match_spec(rows, m.channel_id as int, m.content@) is Some ==> p.steps@.len() == 1
        || (p.error matches Option::Some(e) && e.spec_kind()
        == UserBotErrorKind::StorageUnavailable)
    &&& p.error matches Option::Some(e) ==> e.spec_kind() == UserBotErrorKind::StorageUnavailable
        && p.steps@.len() == 0
}


/// The dispatcher: the session identity, the command prefix, the self-echo
/// suppression flag and the filter catalog.
pub struct UserBot {
    prefix: String,
    self_id: u64,
    skip: bool,
    filters: Filters,
}

impl UserBot {
    /// The configured command prefix, for use in contracts.
    pub closed spec fn spec_prefix(&self) -> Seq<char> {
        self.prefix@
    }

    /// The session identity, for use in contracts.
    pub closed spec fn spec_self_id(&self) -> u64 {
        self.self_id
    }

    /// The suppression flag, for use in contracts.
    pub closed spec fn spec_skip(&self) -> bool {
        self.skip
    }

    /// The stored filters, for use in contracts.
    pub closed spec fn rows(&self) -> Seq<FilterView> {
        self.filters.rows()
    }

    /// A dispatcher over an opened filter catalog. `self_id` is the identity
    /// of the authenticated session, stable for the session's lifetime.
    pub fn new(self_id: u64, prefix: &str, filters: Filters) -> (b: UserBot)
        ensures
            b.spec_self_id() == self_id,
            b.spec_prefix() == prefix@,
            !b.spec_skip(),
            b.rows() == filters.rows(),
    {
        UserBot { prefix: String::from_str(prefix), self_id, skip: false, filters }
    }

    /// Is self-echo suppression armed?
    pub fn skip_armed(&self) -> (r: bool)
        ensures
            r == self.spec_skip(),
    {
        self.skip
    }

    /// Arm self-echo suppression: the next own-authored event is consumed
    /// silently. The surrounding program calls this after a command plan was
    /// carried out with every must-succeed step delivered.
    pub fn arm_skip(&mut self)
        ensures
            final(self).spec_skip(),
            final(self).rows() == old(self).rows(),
            final(self).spec_prefix() == old(self).spec_prefix(),
            final(self).spec_self_id() == old(self).spec_self_id(),
    {
        self.skip = true;
    }
}

fn empty_plan() -> (p: Plan)
    ensures
        p.steps@.len() == 0,
        p.error is None,
        !p.arm_on_success,
{
    Plan { steps: Vec::new(), error: None, arm_on_success: false }
}

fn delete_step(m: &Message, must_succeed: bool) -> (s: Step)
    ensures
        is_delete(s.action, *m),
        s.must_succeed == must_succeed,
{
    Step {
        action: Action::Delete { channel_id: m.channel_id, message_id: m.id },
        must_succeed,
    }
}

fn cmd_repeat(m: &Message, args: &Vec<String>) -> (p: Plan)
    requires
        args.deep_view() == split_spaces_spec(m.content@),
        args.len() >= 1,
    ensures
        repeat_post(*m, p),
        p.arm_on_success == (p.error is None),
{
    let ghost t = split_spaces_spec(m.content@);
    let mut steps: Vec<Step> = Vec::new();
    steps.push(delete_step(m, true));
    if args.len() <= 1 {
        return Plan {
            steps,
            error: Some(UserBotError::new(UserBotErrorKind::MissingParameter, "Missing parameters!")),
            arm_on_success: false,
        };
    }
    proof {
        assert(t[1] == args.deep_view()[1]);
    }
    match parse_i64(args[1].as_str()) {
        None => Plan {
            steps,
            error: Some(UserBotError::new(UserBotErrorKind::ParseError, "Bad repeat count!")),
            arm_on_success: false,
        },
        Some(count) => {
            let text: String;
            match &m.referenced_message {
                Some(rm) => {
                    text = rm.content.clone();
                },
                None => {
                    if args.len() < 3 {
                        return Plan {
                            steps,
                            error: Some(
                                UserBotError::new(
                                    UserBotErrorKind::MissingParameter,
                                    "Missing parameters!",
                                ),
                            ),
                            arm_on_success: false,
                        };
                    }
                    proof {
                        assert(t.skip(2) == args.deep_view().skip(2));
                    }
                    text = join_from(args, 2);
                },
            }
            let ghost body = text@;
            let mut i: i64 = 0;
            while i < count
                invariant
                    0 <= i,
                    count > 0 ==> i <= count,
                    count <= 0 ==> i == 0,
                    text@ == body,
                    steps@.len() == 1 + i,
                    is_delete(steps@[0].action, *m),
                    steps@[0].must_succeed,
                    forall|j: int|
                        1 <= j < steps@.len() ==> is_send_text(
                            (#[trigger] steps@[j]).action,
                            m.channel_id,
                            body,
                        ) && steps@[j].must_succeed,
                decreases count - i,
            {
                steps.push(
                    Step {
                        action: Action::SendText { channel_id: m.channel_id, body: text.clone() },
                        must_succeed: true,
                    },
                );
                i += 1;
            }
            Plan { steps, error: None, arm_on_success: true }
        },
    }
}

fn cmd_debug(m: &Message) -> (p: Plan)
    ensures
        p.error is None,
        p.arm_on_success,
        p.steps@.len() == 2,
        is_delete(p.steps@[0].action, *m),
        !p.steps@[0].must_succeed,
        is_send_text(p.steps@[1].action, m.channel_id, debug_text_of(*m)),
        p.steps@[1].must_succeed,
{
    let mut steps: Vec<Step> = Vec::new();
    steps.push(delete_step(m, false));
    steps.push(
        Step {
            action: Action::SendText { channel_id: m.channel_id, body: render_debug(m) },
            must_succeed: true,
        },
    );
    Plan { steps, error: None, arm_on_success: true }
}

fn cmd_help(m: &Message) -> (p: Plan)
    ensures
        p.error is None,
        p.arm_on_success,
        p.steps@.len() == 2,
        is_delete(p.steps@[0].action, *m),
        !p.steps@[0].must_succeed,
        is_send_text(p.steps@[1].action, m.channel_id, help_text_spec()),
        p.steps@[1].must_succeed,
{
    let mut steps: Vec<Step> = Vec::new();
    steps.push(delete_step(m, false));
    steps.push(
        Step {
            action: Action::SendText { channel_id: m.channel_id, body: help_text() },
            must_succeed: true,
        },
    );
    Plan { steps, error: None, arm_on_success: true }
}

impl UserBot {
    fn cmd_filter(&mut self, m: &Message, args: &Vec<String>) -> (p: Plan)
        requires
            args.deep_view() == split_spaces_spec(m.content@),
            args.len() >= 1,
        ensures
            filter_post(old(self).rows(), final(self).rows(), *m, p),
            p.arm_on_success == (p.error is None),
            final(self).spec_prefix() == old(self).spec_prefix(),
            final(self).spec_self_id() == old(self).spec_self_id(),
            final(self).spec_skip() == old(self).spec_skip(),
    {
        let ghost t = split_spaces_spec(m.content@);
        match &m.referenced_message {
            None => Plan {
                steps: Vec::new(),
                error: Some(
                    UserBotError::new(UserBotErrorKind::MissingParameter, "Missing parameters!"),
                ),
                arm_on_success: false,
            },
            Some(rm) => {
                proof {
                    assert(t.skip(1) == args.deep_view().skip(1));
                }
                let name = join_from(args, 1);
                if name.as_str().unicode_len() == 0 {
                    return Plan {
                        steps: Vec::new(),
                        error: Some(
                            UserBotError::new(
                                UserBotErrorKind::MissingParameter,
                                "Missing parameters!",
                            ),
                        ),
                        arm_on_success: false,
                    };
                }
                let has_blob = rm.attachments.len() > 0;
                let result = if has_blob {
                    let url = rm.attachments[0].url.clone();
                    let fname = rm.attachments[0].filename.clone();
                    self.filters.create_new(
                        m.channel_id,
                        name.as_str(),
                        rm.content.clone(),
                        Some(fname),
                        Some(url),
                    )
                } else {
                    self.filters.create_new(
                        m.channel_id,
                        name.as_str(),
                        rm.content.clone(),
                        None,
                        None,
                    )
                };
                match result {
                    Ok(()) => {
                        let ack = ack_text(name.as_str());
                        let mut steps: Vec<Step> = Vec::new();
                        steps.push(
                            Step {
                                action: Action::SendText { channel_id: m.channel_id, body: ack },
                                must_succeed: false,
                            },
                        );
                        Plan { steps, error: None, arm_on_success: true }
                    },
                    Err(e) => Plan { steps: Vec::new(), error: Some(e), arm_on_success: false },
                }
            },
        }
    }

    fn cmd_filters(&self, m: &Message) -> (p: Plan)
        ensures
            filters_post(self.rows(), *m, p),
            p.arm_on_success == (p.error is None),
    {
        match self.filters.get_all(m.channel_id) {
            Ok(list) => {
                let body = render_listing(&list);
                let mut steps: Vec<Step> = Vec::new();
                steps.push(delete_step(m, false));
                steps.push(
                    Step {
                        action: Action::SendText { channel_id: m.channel_id, body },
                        must_succeed: true,
                    },
                );
                Plan { steps, error: None, arm_on_success: true }
            },
            Err(e) => Plan { steps: Vec::new(), error: Some(e), arm_on_success: false },
        }
    }

    /// Parse an own prefixed message and carry out its command against the
    /// filter catalog, answering with the plan of transport actions left to
    /// perform. Unknown verbs are silently accepted with an empty plan.
    pub fn handle_command(&mut self, message: &Message) -> (p: Plan)
        ensures
            command_post(
                old(self).rows(),
                final(self).rows(),
                old(self).spec_prefix(),
                *message,
                p,
            ),
            final(self).spec_prefix() == old(self).spec_prefix(),
            final(self).spec_self_id() == old(self).spec_self_id(),
            final(self).spec_skip() == old(self).spec_skip(),
    {
        let args = split_spaces(message.content.as_str());
        let ghost t = split_spaces_spec(message.content@);
        let ghost v = verb_spec(t[0], self.prefix@);
        proof {
            reveal_strlit("repeat");
            reveal_strlit("debug");
            reveal_strlit("help");
            reveal_strlit("filter");
            reveal_strlit("filters");
            broadcast use vstd::string::group_string_axioms;

            assert("repeat"@[0] == 'r');
            assert("filter"@[0] == 'f');
            assert("repeat"@.len() == 6);
            assert("debug"@.len() == 5);
            assert("help"@.len() == 4);
            assert("filter"@.len() == 6);
            assert("filters"@.len() == 7);
            assert("repeat"@ != "filter"@);
            assert("repeat"@ != "debug"@ && "repeat"@ != "help"@ && "repeat"@ != "filters"@);
            assert("debug"@ != "help"@ && "debug"@ != "filter"@ && "debug"@ != "filters"@);
            assert("help"@ != "filter"@ && "help"@ != "filters"@);
            assert("filter"@ != "filters"@);
            assert(t[0] == args.deep_view()[0]);
        }
        if verb_is(args[0].as_str(), self.prefix.as_str(), "repeat") {
            cmd_repeat(message, &args)
        } else if verb_is(args[0].as_str(), self.prefix.as_str(), "debug") {
            cmd_debug(message)
        } else if verb_is(args[0].as_str(), self.prefix.as_str(), "help") {
            cmd_help(message)
        } else if verb_is(args[0].as_str(), self.prefix.as_str(), "filter") {
            self.cmd_filter(message, &args)
        } else if verb_is(args[0].as_str(), self.prefix.as_str(), "filters") {
            self.cmd_filters(message)
        } else {
            Plan { steps: Vec::new(), error: None, arm_on_success: true }
        }
    }

    /// Consume one transport event. Own-authored messages are dropped when
    /// suppression is armed (clearing it), handed to the command handler when
    /// they start with the prefix, and dropped otherwise; foreign messages
    /// are answered with the substitution of the first stored filter that
    /// fires, arming suppression speculatively; everything else is ignored.
    pub fn handle_event(&mut self, event: Event) -> (p: Plan)
        ensures
            final(self).spec_prefix() == old(self).spec_prefix(),
            final(self).spec_self_id() == old(self).spec_self_id(),
            event is Other ==> *final(self) == *old(self) && p.steps@.len() == 0
                && p.error is None && !p.arm_on_success,
            event is MessageCreated && event->MessageCreated_0.author_id
                == old(self).spec_self_id() && old(self).spec_skip() ==> !final(self).spec_skip()
                && final(self).rows() == old(self).rows() && p.steps@.len() == 0
                && p.error is None && !p.arm_on_success,
            event is MessageCreated && event->MessageCreated_0.author_id
                == old(self).spec_self_id() && !old(self).spec_skip() && starts_with_seq(
                event->MessageCreated_0.content@,
                old(self).spec_prefix(),
            ) ==> command_post(
                old(self).rows(),
                final(self).rows(),
                old(self).spec_prefix(),
                event->MessageCreated_0,
                p,
            ) && final(self).spec_skip() == old(self).spec_skip(),
            event is MessageCreated && event->MessageCreated_0.author_id
                == old(self).spec_self_id() && !old(self).spec_skip() && !starts_with_seq(
                event->MessageCreated_0.content@,
                old(self).spec_prefix(),
            ) ==> *final(self) == *old(self) && p.steps@.len() == 0 && p.error is None
                && !p.arm_on_success,
            event is MessageCreated && event->MessageCreated_0.author_id
                != old(self).spec_self_id() ==> foreign_post(
                old(self).rows(),
                event->MessageCreated_0,
                p,
            ) && final(self).rows() == old(self).rows() && !p.arm_on_success && (p.steps@.len()
                == 1 ==> final(self).spec_skip()) && (p.steps@.len() == 0
                ==> final(self).spec_skip() == old(self).spec_skip()),
    {
        match event {
            Event::Other => empty_plan(),
            Event::MessageCreated(m) => {
                if m.author_id == self.self_id {
                    if self.skip {
                        self.skip = false;
                        empty_plan()
                    } else if starts_with_str(m.content.as_str(), self.prefix.as_str()) {
                        self.handle_command(&m)
                    } else {
                        empty_plan()
                    }
                } else {
                    match self.filters.match_filter(m.channel_id, m.content.as_str()) {
                        Ok(f) => {
                            self.skip = true;
                            let action = match f.data {
                                Some(d) => Action::SendFile {
                                    channel_id: m.channel_id,
                                    body: f.replace,
                                    data: d,
                                    filename: match f.filename {
                                        Some(n) => n,
                                        None => String::from_str("filter"),
                                    },
                                },
                                None => Action::SendText {
                                    channel_id: m.channel_id,
                                    body: f.replace,
                                },
                            };
                            let mut steps: Vec<Step> = Vec::new();
                            steps.push(Step { action, must_succeed: false });
                            Plan { steps, error: None, arm_on_success: false }
                        },
                        Err(e) => match e.kind() {
                            UserBotErrorKind::NoMatch => empty_plan(),
                            _ => Plan { steps: Vec::new(), error: Some(e), arm_on_success: false },
                        },
                    }
                }
            },
        }
    }
}

} // verus!

