//! The topics of the shadow service: how they are built for a device and how
//! an inbound topic is taken apart.

use vstd::prelude::*;
use vstd::string::*;

verus! {

/// The topic on which the current shadow of device `id` is requested.
pub open spec fn get_topic(id: Seq<char>) -> Seq<char> {
    "things/"@ + id + "/shadow/get"@
}

/// The topic on which the answer to such a request arrives.
pub open spec fn get_accepted_topic(id: Seq<char>) -> Seq<char> {
    "things/"@ + id + "/shadow/get/accepted"@
}

/// The topic on which a change of the desired state of device `id` arrives.
pub open spec fn delta_topic(id: Seq<char>) -> Seq<char> {
    "things/"@ + id + "/shadow/update/delta"@
}

/// The topic on which the state of device `id` is reported.
pub open spec fn update_topic(id: Seq<char>) -> Seq<char> {
    "things/"@ + id + "/shadow/update"@
}

/// Builds the topic on which the current shadow of `thing_name` is requested.
pub fn shadow_get_topic(thing_name: &str) -> (topic: String)
    ensures
        topic@ == get_topic(thing_name@),
{
    let mut topic = String::from_str("things/");
    topic.append(thing_name);
    topic.append("/shadow/get");
    topic
}

/// Builds the topic on which the answer to a request for the shadow of
/// `thing_name` arrives.
pub fn shadow_get_accepted_topic(thing_name: &str) -> (topic: String)
    ensures
        topic@ == get_accepted_topic(thing_name@),
{
    let mut topic = String::from_str("things/");
    topic.append(thing_name);
    topic.append("/shadow/get/accepted");
    topic
}

/// Builds the topic on which a change of the desired state of `thing_name`
/// arrives.
pub fn shadow_delta_topic(thing_name: &str) -> (topic: String)
    ensures
        topic@ == delta_topic(thing_name@),
{
    let mut topic = String::from_str("things/");
    topic.append(thing_name);
    topic.append("/shadow/update/delta");
    topic
}

/// Builds the topic on which the state of `thing_name` is reported.
pub fn shadow_update_topic(thing_name: &str) -> (topic: String)
    ensures
        topic@ == update_topic(thing_name@),
{
    let mut topic = String::from_str("things/");
    topic.append(thing_name);
    topic.append("/shadow/update");
    topic
}

/// The characters of a text, one for one.
fn chars_of(text: &str) -> (chars: Vec<char>)
    ensures
        chars@ == text@,
{
    broadcast use vstd::string::group_string_axioms;

    let mut chars: Vec<char> = Vec::new();
    for c in it: text.chars()
        invariant
            it.seq() == text@,
            chars@ == text@.take(it.index()),
    {
        chars.push(c);
        assert(text@.take(it.index() + 1) =~= text@.take(it.index()).push(c));
    }
    assert(text@.take(text@.len() as int) =~= text@);
    chars
}

/// Which answer of the shadow service a topic carries.
#[derive(Debug, Clone, Copy, PartialEq, Eq, Structural)]
pub enum Reply {
    /// A request was accepted.
    Accepted,
    /// The desired state differs from the reported one.
    Delta,
}

/// A topic of the shadow service taken apart.
#[derive(Debug)]
pub struct ShadowTopic {
    pub thing_name: String,
    pub action: String,
    pub reply: Reply,
}

/// The last segment of a topic that carries `reply`.
pub open spec fn reply_text(reply: Reply) -> Seq<char> {
    match reply {
        Reply::Accepted => "accepted"@,
        Reply::Delta => "delta"@,
    }
}

/// A segment of a topic: at least one character, and no slash.
pub open spec fn is_segment(s: Seq<char>) -> bool {
    s.len() > 0 && forall|i: int| 0 <= i < s.len() ==> s[i] != '/'
}

/// Where a topic of the shadow service may stand: at the root, or in the
/// broker's reserved space `$aws/`.
pub open spec fn is_root(root: Seq<char>) -> bool {
    root == Seq::<char>::empty() || root == "$aws/"@
}

/// Whether `reply` is an answer that is known for `action`: any action can
/// be accepted, and only an update has a delta.
pub open spec fn is_reply(action: Seq<char>, reply: Reply) -> bool {
    reply == Reply::Accepted || action == "update"@
}

/// The topic below `root` for device `id` and `action` that ends in `tail`.
pub open spec fn shadow_topic(root: Seq<char>, id: Seq<char>, action: Seq<char>, tail: Seq<char>) -> Seq<
    char,
> {
    root + "things/"@ + id + "/shadow/"@ + action + "/"@ + tail
}

/// Whether `topic` carries `reply` to `action` for device `id`.
pub open spec fn is_reply_topic(topic: Seq<char>, id: Seq<char>, action: Seq<char>, reply: Reply) -> bool {
    &&& is_segment(id)
    &&& is_segment(action)
    &&& is_reply(action, reply)
    &&& (topic == shadow_topic(Seq::empty(), id, action, reply_text(reply)) || topic
        == shadow_topic("$aws/"@, id, action, reply_text(reply)))
}

/// Whether `topic` is a topic of the shadow service that names device `id`
/// and `action`.
pub open spec fn names(topic: Seq<char>, id: Seq<char>, action: Seq<char>) -> bool {
    is_reply_topic(topic, id, action, Reply::Accepted) || is_reply_topic(
        topic,
        id,
        action,
        Reply::Delta,
    )
}

/// The device, the action and the answer of `topic`, if it is a topic of the
/// shadow service.
pub open spec fn parsed(topic: Seq<char>) -> Option<(Seq<char>, Seq<char>, Reply)> {
    if exists|t: (Seq<char>, Seq<char>, Reply)| is_reply_topic(topic, t.0, t.1, t.2) {
        Some(choose|t: (Seq<char>, Seq<char>, Reply)| is_reply_topic(topic, t.0, t.1, t.2))
    } else {
        None
    }
}

/// The device and the action that `topic` names, if it is a topic of the
/// shadow service.
pub open spec fn decoded(topic: Seq<char>) -> Option<(Seq<char>, Seq<char>)> {
    match parsed(topic) {
        Some(t) => Some((t.0, t.1)),
        None => None,
    }
}

/// Whether `lit` stands in `s` at `pos`.
spec fn has_at(s: Seq<char>, pos: int, lit: Seq<char>) -> bool {
    0 <= pos && pos + lit.len() <= s.len() && s.subrange(pos, pos + lit.len()) == lit
}

/// Where the segment that starts at `from` ends: at the next slash, or at
/// the end of `s`.
spec fn segment_end(s: Seq<char>, from: int) -> int
    decreases s.len() - from,
{
    if 0 <= from < s.len() && s[from] != '/' {
        segment_end(s, from + 1)
    } else {
        from
    }
}

proof fn lemma_segment_end(s: Seq<char>, from: int, end: int)
    requires
        0 <= from <= end <= s.len(),
        forall|i: int| from <= i < end ==> s[i] != '/',
        end < s.len() ==> s[end] == '/',
    ensures
        segment_end(s, from) == end,
    decreases end - from,
{
    if from < end {
        lemma_segment_end(s, from + 1, end);
    }
}

proof fn lemma_segment_has_no_slash(s: Seq<char>, from: int)
    requires
        0 <= from <= s.len(),
    ensures
        from <= segment_end(s, from) <= s.len(),
        forall|i: int| from <= i < segment_end(s, from) ==> s[i] != '/',
        segment_end(s, from) < s.len() ==> s[segment_end(s, from)] == '/',
    decreases s.len() - from,
{
    if from < s.len() && s[from] != '/' {
        lemma_segment_has_no_slash(s, from + 1);
    }
}

/// How far the root of `topic` reaches.
spec fn root_len(topic: Seq<char>) -> int {
    if has_at(topic, 0, "$aws/"@) {
        5
    } else {
        0
    }
}

/// Whether `id`, `action` and `tail` stand in `topic` where a topic of the
/// shadow service has them.
spec fn stands_in(topic: Seq<char>, id: Seq<char>, action: Seq<char>, tail: Seq<char>) -> bool {
    let p1 = root_len(topic) + 7;
    let p2 = p1 + id.len();
    let p3 = p2 + 8;
    let p4 = p3 + action.len();
    &&& has_at(topic, root_len(topic), "things/"@)
    &&& segment_end(topic, p1) == p2
    &&& topic.subrange(p1, p2) == id
    &&& has_at(topic, p2, "/shadow/"@)
    &&& segment_end(topic, p3) == p4
    &&& topic.subrange(p3, p4) == action
    &&& topic.len() == p4 + 1 + tail.len()
    &&& topic.subrange(p4 + 1, topic.len() as int) == tail
}

/// The parts of a topic of the shadow service stand in it one after the
/// other, and nowhere else.
proof fn lemma_shadow_topic_parts(root: Seq<char>, id: Seq<char>, action: Seq<char>, tail: Seq<char>)
    requires
        is_root(root),
        is_segment(id),
        is_segment(action),
    ensures
        stands_in(shadow_topic(root, id, action, tail), id, action, tail),
{
    reveal_strlit("$aws/");
    reveal_strlit("things/");
    reveal_strlit("/shadow/");
    reveal_strlit("/");
    let topic = shadow_topic(root, id, action, tail);
    let p0 = root.len() as int;
    let p1 = p0 + 7;
    let p2 = p1 + id.len();
    let p3 = p2 + 8;
    let p4 = p3 + action.len();
    assert(topic.len() == p4 + 1 + tail.len());
    assert(topic.subrange(p0, p1) =~= "things/"@);
    assert(topic.subrange(p1, p2) =~= id);
    assert(topic.subrange(p2, p3) =~= "/shadow/"@);
    assert(topic.subrange(p3, p4) =~= action);
    assert(topic.subrange(p4 + 1, topic.len() as int) =~= tail);
    assert(topic[p2] == '/');
    assert(topic[p4] == '/');
    assert forall|i: int| p1 <= i < p2 implies topic[i] != '/' by {
        assert(topic[i] == id[i - p1]);
    }
    assert forall|i: int| p3 <= i < p4 implies topic[i] != '/' by {
        assert(topic[i] == action[i - p3]);
    }
    lemma_segment_end(topic, p1, p2);
    lemma_segment_end(topic, p3, p4);
    assert(topic =~= root + ("things/"@ + id + "/shadow/"@ + action + "/"@ + tail));
    lemma_root_len(root, "things/"@ + id + "/shadow/"@ + action + "/"@ + tail);
}

/// What stands in a topic where its parts belong is the same whichever way
/// the topic is read.
proof fn lemma_stands_in_once(
    topic: Seq<char>,
    id: Seq<char>,
    action: Seq<char>,
    tail: Seq<char>,
    id2: Seq<char>,
    action2: Seq<char>,
    tail2: Seq<char>,
)
    requires
        stands_in(topic, id, action, tail),
        stands_in(topic, id2, action2, tail2),
    ensures
        id == id2,
        action == action2,
        tail == tail2,
{
}

/// A topic carries one answer to one action for one device.
pub proof fn lemma_reply_topic_unique(
    topic: Seq<char>,
    id: Seq<char>,
    action: Seq<char>,
    reply: Reply,
    id2: Seq<char>,
    action2: Seq<char>,
    reply2: Reply,
)
    requires
        is_reply_topic(topic, id, action, reply),
        is_reply_topic(topic, id2, action2, reply2),
    ensures
        id == id2,
        action == action2,
        reply == reply2,
{
    reveal_strlit("accepted");
    reveal_strlit("delta");
    lemma_reply_topic_parts(topic, id, action, reply);
    lemma_reply_topic_parts(topic, id2, action2, reply2);
    lemma_stands_in_once(
        topic,
        id,
        action,
        reply_text(reply),
        id2,
        action2,
        reply_text(reply2),
    );
}

proof fn lemma_reply_topic_parts(topic: Seq<char>, id: Seq<char>, action: Seq<char>, reply: Reply)
    requires
        is_reply_topic(topic, id, action, reply),
    ensures
        stands_in(topic, id, action, reply_text(reply)),
{
    if topic == shadow_topic(Seq::empty(), id, action, reply_text(reply)) {
        lemma_shadow_topic_parts(Seq::empty(), id, action, reply_text(reply));
    } else {
        lemma_shadow_topic_parts("$aws/"@, id, action, reply_text(reply));
    }
}

/// What `parsed` gives for a topic that carries `reply` to `action` for
/// device `id`.
pub proof fn lemma_parsed(topic: Seq<char>, id: Seq<char>, action: Seq<char>, reply: Reply)
    requires
        is_reply_topic(topic, id, action, reply),
    ensures
        parsed(topic) == Some((id, action, reply)),
        decoded(topic) == Some((id, action)),
{
    let t = (id, action, reply);
    assert(is_reply_topic(topic, t.0, t.1, t.2));
    let c = choose|t: (Seq<char>, Seq<char>, Reply)| is_reply_topic(topic, t.0, t.1, t.2);
    lemma_reply_topic_unique(topic, id, action, reply, c.0, c.1, c.2);
}

/// Decoding a topic of the shadow service gives back the very device and
/// action that the topic was made of, whether it stands at the root or in
/// the reserved space, for every answer that is known for the action.
pub proof fn lemma_decodes_shadow_topic(root: Seq<char>, id: Seq<char>, action: Seq<char>, reply: Reply)
    requires
        is_root(root),
        is_segment(id),
        is_segment(action),
        is_reply(action, reply),
    ensures
        decoded(shadow_topic(root, id, action, reply_text(reply))) == Some((id, action)),
        parsed(shadow_topic(root, id, action, reply_text(reply))) == Some((id, action, reply)),
{
    lemma_parsed(shadow_topic(root, id, action, reply_text(reply)), id, action, reply);
}

/// The two topics that are subscribed to for a device decode to that device:
/// the answer to a request as a `get`, a change of the desired state as an
/// `update`.
pub proof fn lemma_decodes_subscribed_topics(id: Seq<char>)
    requires
        is_segment(id),
    ensures
        parsed(get_accepted_topic(id)) == Some((id, "get"@, Reply::Accepted)),
        parsed(delta_topic(id)) == Some((id, "update"@, Reply::Delta)),
{
    reveal_strlit("things/");
    reveal_strlit("/shadow/");
    reveal_strlit("/");
    reveal_strlit("get");
    reveal_strlit("update");
    reveal_strlit("accepted");
    reveal_strlit("delta");
    reveal_strlit("/shadow/get/accepted");
    reveal_strlit("/shadow/update/delta");
    let empty = Seq::<char>::empty();
    assert(get_accepted_topic(id) =~= shadow_topic(empty, id, "get"@, "accepted"@));
    assert(delta_topic(id) =~= shadow_topic(empty, id, "update"@, "delta"@));
    lemma_decodes_shadow_topic(empty, id, "get"@, Reply::Accepted);
    lemma_decodes_shadow_topic(empty, id, "update"@, Reply::Delta);
}

/// A topic whose last segment is no answer that is known for its action
/// decodes to nothing.
pub proof fn lemma_rejects_unknown_tail(root: Seq<char>, id: Seq<char>, action: Seq<char>, tail: Seq<char>)
    requires
        is_root(root),
        is_segment(id),
        is_segment(action),
        forall|reply: Reply| is_reply(action, reply) ==> tail != #[trigger] reply_text(reply),
    ensures
        decoded(shadow_topic(root, id, action, tail)) is None,
{
    let topic = shadow_topic(root, id, action, tail);
    lemma_shadow_topic_parts(root, id, action, tail);
    assert forall|t: (Seq<char>, Seq<char>, Reply)| !is_reply_topic(topic, t.0, t.1, t.2) by {
        if is_reply_topic(topic, t.0, t.1, t.2) {
            lemma_reply_topic_parts(topic, t.0, t.1, t.2);
            lemma_stands_in_once(topic, id, action, tail, t.0, t.1, reply_text(t.2));
        }
    }
}

/// A topic with nothing between `things/` and `/shadow/` decodes to
/// nothing.
pub proof fn lemma_rejects_empty_identifier(root: Seq<char>, action: Seq<char>, tail: Seq<char>)
    requires
        is_root(root),
    ensures
        decoded(shadow_topic(root, Seq::empty(), action, tail)) is None,
{
    reveal_strlit("$aws/");
    reveal_strlit("things/");
    reveal_strlit("/shadow/");
    let topic = shadow_topic(root, Seq::empty(), action, tail);
    assert(topic[root.len() as int + 7] == '/');
    let rest = "things/"@ + Seq::<char>::empty() + "/shadow/"@ + action + "/"@ + tail;
    assert(topic =~= root + rest);
    lemma_root_len(root, rest);
    assert forall|t: (Seq<char>, Seq<char>, Reply)| !is_reply_topic(topic, t.0, t.1, t.2) by {
        if is_reply_topic(topic, t.0, t.1, t.2) {
            lemma_reply_topic_parts(topic, t.0, t.1, t.2);
        }
    }
}

/// Where the root of a topic ends that continues with `things/`.
proof fn lemma_root_len(root: Seq<char>, rest: Seq<char>)
    requires
        is_root(root),
        rest.len() > 0,
        rest[0] == 't',
    ensures
        root_len(root + rest) == root.len(),
{
    reveal_strlit("$aws/");
    let topic = root + rest;
    if root == "$aws/"@ {
        assert(topic.subrange(0, 5) =~= "$aws/"@);
    } else {
        assert(topic[0] == 't');
        if has_at(topic, 0, "$aws/"@) {
            assert(topic.subrange(0, 5)[0] == '$');
        }
    }
}

/// A segment that stands at `from` and is followed by a slash ends there.
proof fn lemma_segment_end_of(s: Seq<char>, from: int, segment: Seq<char>)
    requires
        0 <= from,
        from + segment.len() < s.len(),
        s.subrange(from, from + segment.len()) == segment,
        forall|i: int| 0 <= i < segment.len() ==> segment[i] != '/',
        s[from + segment.len()] == '/',
    ensures
        segment_end(s, from) == from + segment.len(),
{
    assert forall|i: int| from <= i < from + segment.len() implies s[i] != '/' by {
        assert(s[i] == s.subrange(from, from + segment.len())[i - from]);
    }
    lemma_segment_end(s, from, from + segment.len());
}

/// A topic that lacks the identifier and its slash, so that `shadow`
/// follows `things/` at once, decodes to nothing, unless its action is
/// itself `shadow`: the topic then names a device called `shadow`.
pub proof fn lemma_rejects_missing_identifier(root: Seq<char>, action: Seq<char>, tail: Seq<char>)
    requires
        is_root(root),
        is_segment(action),
        action != "shadow"@,
    ensures
        decoded(root + "things/shadow/"@ + action + "/"@ + tail) is None,
{
    reveal_strlit("things/shadow/");
    reveal_strlit("/shadow/");
    reveal_strlit("shadow");
    reveal_strlit("/");
    let topic = root + "things/shadow/"@ + action + "/"@ + tail;
    let p0 = root.len() as int;
    let rest = "things/shadow/"@ + action + "/"@ + tail;
    assert(topic =~= root + rest);
    lemma_root_len(root, rest);
    assert(topic.subrange(p0 + 7, p0 + 13) =~= "shadow"@);
    assert(topic[p0 + 13] == '/');
    lemma_segment_end_of(topic, p0 + 7, "shadow"@);
    assert(topic.subrange(p0 + 14, p0 + 14 + action.len()) =~= action);
    assert(topic[p0 + 14 + action.len()] == '/');
    lemma_segment_end_of(topic, p0 + 14, action);
    assert forall|t: (Seq<char>, Seq<char>, Reply)| !is_reply_topic(topic, t.0, t.1, t.2) by {
        if is_reply_topic(topic, t.0, t.1, t.2) {
            lemma_reply_topic_parts(topic, t.0, t.1, t.2);
            lemma_missing_identifier_action(topic, p0, action);
        }
    }
}

/// Where `/shadow/` follows a segment `shadow`, the segment after the first
/// of its slashes is `shadow` again.
proof fn lemma_missing_identifier_action(topic: Seq<char>, p0: int, action: Seq<char>)
    requires
        0 <= p0,
        has_at(topic, p0 + 13, "/shadow/"@),
        segment_end(topic, p0 + 14) == p0 + 14 + action.len(),
        p0 + 14 + action.len() <= topic.len(),
        topic.subrange(p0 + 14, p0 + 14 + action.len()) == action,
    ensures
        action == "shadow"@,
{
    reveal_strlit("/shadow/");
    reveal_strlit("shadow");
    let found = topic.subrange(p0 + 13, p0 + 21);
    assert(topic.subrange(p0 + 14, p0 + 20) =~= found.subrange(1, 7));
    assert(found.subrange(1, 7) =~= "shadow"@);
    assert(topic[p0 + 20] == found[7]);
    lemma_segment_end_of(topic, p0 + 14, "shadow"@);
}

/// Whether `lit` stands in `chars` at `pos`.
fn starts_at(chars: &Vec<char>, pos: usize, lit: &str) -> (found: bool)
    ensures
        found == has_at(chars@, pos as int, lit@),
{
    let lit_chars = chars_of(lit);
    let n: usize = lit_chars.len();
    if pos > chars.len() || n > chars.len() - pos {
        return false;
    }
    let mut i: usize = 0;
    while i < n
        invariant
            lit_chars@ == lit@,
            n == lit_chars.len(),
            pos + n <= chars.len(),
            i <= n,
            forall|j: int| 0 <= j < i ==> chars@[pos + j] == lit_chars@[j],
        decreases n - i,
    {
        if chars[pos + i] != lit_chars[i] {
            assert(chars@.subrange(pos as int, pos + n)[i as int] != lit@[i as int]);
            return false;
        }
        i = i + 1;
    }
    assert(chars@.subrange(pos as int, pos + n) =~= lit@);
    true
}

/// The end of the segment of `chars` that starts at `from`.
fn find_segment_end(chars: &Vec<char>, from: usize) -> (end: usize)
    requires
        from <= chars.len(),
    ensures
        end == segment_end(chars@, from as int),
        from <= end <= chars.len(),
{
    let mut end: usize = from;
    while end < chars.len() && chars[end] != '/'
        invariant
            from <= end <= chars.len(),
            segment_end(chars@, from as int) == segment_end(chars@, end as int),
        decreases chars.len() - end,
    {
        end = end + 1;
    }
    end
}

/// Takes a topic of the shadow service apart: the device it is about, the
/// action, and the answer it carries. A topic of any other form gives
/// nothing.
pub fn parse_topic(topic: &str) -> (result: Option<ShadowTopic>)
    ensures
        match result {
            Some(t) => parsed(topic@) == Some((t.thing_name@, t.action@, t.reply)),
            None => parsed(topic@) is None,
        },
{
    let chars = chars_of(topic);
    let n: usize = chars.len();
    proof {
        reveal_strlit("$aws/");
        reveal_strlit("things/");
        reveal_strlit("/shadow/");
        reveal_strlit("/");
        reveal_strlit("accepted");
        reveal_strlit("delta");
        reveal_strlit("update");
        assert forall|id: Seq<char>, action: Seq<char>, reply: Reply|
            is_reply_topic(topic@, id, action, reply) implies stands_in(
            topic@,
            id,
            action,
            reply_text(reply),
        ) by {
            lemma_reply_topic_parts(topic@, id, action, reply);
        }
    }
    let p0: usize = if starts_at(&chars, 0, "$aws/") {
        5
    } else {
        0
    };
    if !starts_at(&chars, p0, "things/") {
        return None;
    }
    let p1: usize = p0 + 7;
    let p2: usize = find_segment_end(&chars, p1);
    if p2 == p1 || !starts_at(&chars, p2, "/shadow/") {
        return None;
    }
    let p3: usize = p2 + 8;
    let p4: usize = find_segment_end(&chars, p3);
    if p4 == p3 || p4 >= n {
        return None;
    }
    let accepted = starts_at(&chars, p4 + 1, "accepted") && n - p4 == 9;
    let delta = starts_at(&chars, p4 + 1, "delta") && n - p4 == 6 && starts_at(
        &chars,
        p3,
        "update",
    ) && p4 - p3 == 6;
    if !accepted && !delta {
        return None;
    }
    let reply = if accepted {
        Reply::Accepted
    } else {
        Reply::Delta
    };
    let thing_name = String::from_str(topic.substring_char(p1, p2));
    let action = String::from_str(topic.substring_char(p3, p4));
    proof {
        let root = topic@.subrange(0, p0 as int);
        assert(root == Seq::<char>::empty() || root == "$aws/"@) by {
            if p0 == 0 {
                assert(root =~= Seq::<char>::empty());
            }
        }
        lemma_segment_has_no_slash(topic@, p1 as int);
        lemma_segment_has_no_slash(topic@, p3 as int);
        let tail = topic@.subrange(p4 + 1, n as int);
        assert(tail == reply_text(reply));
        assert(topic@.subrange(p4 as int, p4 + 1) =~= "/"@);
        assert(topic@ =~= root + topic@.subrange(p0 as int, p1 as int) + thing_name@
            + topic@.subrange(p2 as int, p3 as int) + action@ + topic@.subrange(p4 as int, p4 + 1)
            + tail);
        assert(is_segment(thing_name@));
        assert(is_segment(action@));
        lemma_parsed(topic@, thing_name@, action@, reply);
    }
    Some(ShadowTopic { thing_name, action, reply })
}

/// The device and the action that a topic of the shadow service names, if
/// `topic_name` is one.
pub fn decode_topic_name(topic_name: &str) -> (result: Option<(String, String)>)
    ensures
        match result {
            Some((id, action)) => decoded(topic_name@) == Some((id@, action@)),
            None => decoded(topic_name@) is None,
        },
{
    match parse_topic(topic_name) {
        Some(t) => Some((t.thing_name, t.action)),
        None => None,
    }
}

} // verus!
