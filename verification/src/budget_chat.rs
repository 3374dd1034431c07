//! The broadcast message bus of the chat relay: a registry mapping each
//! joined participant's name to a mailbox of pending messages, with
//! send-to-all-but-sender fan-out, a one-time roster snapshot for each
//! newcomer, and join/left announcements. Each participant's connection
//! worker drives the registry through the functions here; a writer task
//! drains the participant's mailbox and serializes each message to the wire.

use vstd::prelude::*;
use vstd::string::StrSliceExecFns;
use vstd::string::StringExecFns;

verus! {

/// The payload of one bus message.
pub enum MessageContent {
    /// The roster snapshot sent once to a new joiner: the names of everyone
    /// else present at the instant of registration.
    UserList(Vec<String>),
    /// Announcement that the sender joined.
    Joined,
    /// Announcement that the sender left.
    Left,
    /// One line of chat text from the sender.
    Message(String),
}

/// One unit of the bus: who sent it, and what.
pub struct Message {
    pub from: String,
    pub content: MessageContent,
}

/// The mathematical value of a message payload.
#[verifier::ext_equal]
pub enum ContentV {
    UserList(Seq<Seq<char>>),
    Joined,
    Left,
    Message(Seq<char>),
}

/// The mathematical value of a message.
#[verifier::ext_equal]
pub struct MsgV {
    pub from: Seq<char>,
    pub content: ContentV,
}

impl View for Message {
    type V = MsgV;

    open spec fn view(&self) -> MsgV {
        MsgV {
            from: self.from@,
            content: match self.content {
                MessageContent::UserList(users) => ContentV::UserList(users.deep_view()),
                MessageContent::Joined => ContentV::Joined,
                MessageContent::Left => ContentV::Left,
                MessageContent::Message(text) => ContentV::Message(text@),
            },
        }
    }
}

impl DeepView for Message {
    type V = MsgV;

    open spec fn deep_view(&self) -> MsgV {
        self.view()
    }
}

/// A name may use only the ASCII digits and letters.
pub open spec fn is_alnum(c: char) -> bool {
    (48 <= c as u32 && c as u32 <= 57) || (65 <= c as u32 && c as u32 <= 90) || (97 <= c as u32
        && c as u32 <= 122)
}

/// A participant name is acceptable: non-empty and alphanumeric-only.
pub open spec fn valid_name(s: Seq<char>) -> bool {
    s.len() > 0 && forall|i: int| 0 <= i < s.len() ==> is_alnum(#[trigger] s[i])
}

/// Checks a requested name: non-empty, ASCII digits and letters only.
pub fn validate_name(name: &str) -> (r: bool)
    ensures
        r == valid_name(name@),
{
    let len = name.unicode_len();
    if len == 0 {
        return false;
    }
    let mut i: usize = 0;
    while i < len
        invariant
            len == name@.len(),
            0 <= i <= len,
            forall|j: int| 0 <= j < i ==> is_alnum(#[trigger] name@[j]),
        decreases len - i,
    {
        let c = name.get_char(i);
        let u = c as u32;
        if !((48 <= u && u <= 57) || (65 <= u && u <= 90) || (97 <= u && u <= 122)) {
            assert(!is_alnum(name@[i as int]));
            return false;
        }
        i = i + 1;
    }
    true
}

/// Copies a list of names; the copy has the same mathematical value.
fn clone_names(v: &Vec<String>) -> (r: Vec<String>)
    ensures
        r.deep_view() == v.deep_view(),
{
    let mut out: Vec<String> = Vec::new();
    let mut i: usize = 0;
    while i < v.len()
        invariant
            0 <= i <= v.len(),
            out@.len() == i,
            forall|j: int| 0 <= j < i ==> out@[j] == v@[j],
        decreases v.len() - i,
    {
        out.push(v[i].clone());
        i = i + 1;
    }
    proof {
        assert(out.deep_view() =~= v.deep_view());
    }
    out
}

/// Copies a message; the copy has the same mathematical value. The bus
/// clones a message once per recipient when fanning it out.
pub fn clone_message(m: &Message) -> (r: Message)
    ensures
        r@ == m@,
{
    let content = match &m.content {
        MessageContent::UserList(users) => MessageContent::UserList(clone_names(users)),
        MessageContent::Joined => MessageContent::Joined,
        MessageContent::Left => MessageContent::Left,
        MessageContent::Message(text) => MessageContent::Message(text.clone()),
    };
    Message { from: m.from.clone(), content }
}

/// The mathematical value of one registry entry: a joined participant's name
/// and their pending messages, oldest first.
#[verifier::ext_equal]
pub struct UserV {
    pub name: Seq<char>,
    pub mailbox: Seq<MsgV>,
}

/// One registry entry: a joined participant and their mailbox.
pub struct Participant {
    name: String,
    mailbox: Vec<Message>,
}

impl View for Participant {
    type V = UserV;

    closed spec fn view(&self) -> UserV {
        UserV { name: self.name@, mailbox: self.mailbox.deep_view() }
    }
}

impl DeepView for Participant {
    type V = UserV;

    open spec fn deep_view(&self) -> UserV {
        self.view()
    }
}

/// The names present in a registry, in entry order.
pub open spec fn room_names(rv: Seq<UserV>) -> Seq<Seq<char>> {
    rv.map_values(|u: UserV| u.name)
}

/// Whether some entry carries this name.
pub open spec fn room_contains(rv: Seq<UserV>, n: Seq<char>) -> bool {
    exists|i: int| 0 <= i < rv.len() && (#[trigger] rv[i]).name == n
}

/// The index of the entry with this name (unique when `unique_names` holds).
pub open spec fn room_index(rv: Seq<UserV>, n: Seq<char>) -> int {
    choose|i: int| 0 <= i < rv.len() && (#[trigger] rv[i]).name == n
}

/// The pending messages of the participant with this name.
pub open spec fn mailbox_of(rv: Seq<UserV>, n: Seq<char>) -> Seq<MsgV> {
    rv[room_index(rv, n)].mailbox
}

/// The registry's invariant: names are globally unique.
pub open spec fn unique_names(rv: Seq<UserV>) -> bool {
    forall|i: int, j: int|
        0 <= i < j < rv.len() ==> (#[trigger] rv[i]).name != (#[trigger] rv[j]).name
}

/// One delivery of the fan-out: the message lands in every mailbox except
/// the sender's own.
pub open spec fn spec_deliver(u: UserV, m: MsgV) -> UserV {
    if u.name == m.from {
        u
    } else {
        UserV { mailbox: u.mailbox.push(m), ..u }
    }
}

/// A broadcast: the message appended to every mailbox but the sender's.
pub open spec fn spec_broadcast(rv: Seq<UserV>, m: MsgV) -> Seq<UserV> {
    rv.map_values(|u: UserV| spec_deliver(u, m))
}

/// The announcement that `n` joined.
pub open spec fn joined_msg(n: Seq<char>) -> MsgV {
    MsgV { from: n, content: ContentV::Joined }
}

/// The announcement that `n` left.
pub open spec fn left_msg(n: Seq<char>) -> MsgV {
    MsgV { from: n, content: ContentV::Left }
}

/// The roster snapshot handed to `n`: everyone present just before `n`'s
/// registration.
pub open spec fn roster_msg(n: Seq<char>, names: Seq<Seq<char>>) -> MsgV {
    MsgV { from: n, content: ContentV::UserList(names) }
}

/// A successful join: everyone already present hears the announcement, and
/// the newcomer appears with exactly the roster snapshot in their mailbox.
pub open spec fn spec_join(rv: Seq<UserV>, n: Seq<char>) -> Seq<UserV> {
    spec_broadcast(rv, joined_msg(n)).push(
        UserV { name: n, mailbox: seq![roster_msg(n, room_names(rv))] },
    )
}

/// Removal of a name, if present; the registry is otherwise untouched.
pub open spec fn spec_remove(rv: Seq<UserV>, n: Seq<char>) -> Seq<UserV> {
    if room_contains(rv, n) {
        rv.remove(room_index(rv, n))
    } else {
        rv
    }
}

/// A departure: the entry goes away, then everyone remaining hears the
/// announcement.
pub open spec fn spec_depart(rv: Seq<UserV>, n: Seq<char>) -> Seq<UserV> {
    spec_broadcast(spec_remove(rv, n), left_msg(n))
}

/// The participant registry of the broadcast bus. One instance serves one
/// serving loop; entries exist exactly while their participant is joined.
pub struct Room {
    users: Vec<Participant>,
}

impl View for Room {
    type V = Seq<UserV>;

    closed spec fn view(&self) -> Seq<UserV> {
        self.users.deep_view()
    }
}

impl Room {
    /// The registry's invariant: no two entries share a name.
    pub open spec fn wf(self) -> bool {
        unique_names(self@)
    }

    /// A fresh, empty registry.
    pub fn new() -> (r: Room)
        ensures
            r.wf(),
            r@ == Seq::<UserV>::empty(),
    {
        let r = Room { users: Vec::new() };
        proof {
            assert(r@ =~= Seq::<UserV>::empty());
        }
        r
    }

    /// How many participants are joined.
    pub fn len(&self) -> (n: usize)
        ensures
            n == self@.len(),
    {
        self.users.len()
    }

    /// Whether this name is currently registered.
    pub fn contains(&self, name: &String) -> (r: bool)
        ensures
            r == room_contains(self@, name@),
    {
        let n = self.users.len();
        let mut i: usize = 0;
        while i < n
            invariant
                n == self.users.len(),
                0 <= i <= n,
                forall|j: int| 0 <= j < i ==> (#[trigger] self@[j]).name != name@,
            decreases n - i,
        {
            if self.users[i].name.eq(name) {
                assert(self@[i as int].name == name@);
                return true;
            }
            i = i + 1;
        }
        false
    }

    /// Fans one message out to every mailbox except the sender's own.
    fn deliver_all(&mut self, message: &Message)
        ensures
            final(self)@ == spec_broadcast(old(self)@, message@),
    {
        let n = self.users.len();
        let mut i: usize = 0;
        while i < n
            invariant
                n == self.users.len(),
                0 <= i <= n,
                forall|j: int|
                    0 <= j < i ==> self@[j] == spec_deliver(#[trigger] old(self)@[j], message@),
                forall|j: int| i <= j < n ==> self@[j] == #[trigger] old(self)@[j],
            decreases n - i,
        {
            let mut u = self.users.remove(i);
            let ghost before = u@;
            if !u.name.eq(&message.from) {
                u.mailbox.push(clone_message(message));
                proof {
                    assert(u@.mailbox =~= before.mailbox.push(message@));
                }
            }
            proof {
                assert(u@ == spec_deliver(before, message@));
            }
            self.users.insert(i, u);
            i = i + 1;
        }
        proof {
            assert(final(self)@ =~= spec_broadcast(old(self)@, message@));
        }
    }

    /// Registers a newcomer. Refused (and nothing changes) exactly when the
    /// name is already present. On success: the roster snapshot — everyone
    /// else, as of this instant, never including the newcomer — lands in the
    /// newcomer's mailbox, and everyone already present hears the join
    /// announcement.
    pub fn join(&mut self, name: &String) -> (r: bool)
        requires
            old(self).wf(),
        ensures
            final(self).wf(),
            r == !room_contains(old(self)@, name@),
            !r ==> *final(self) == *old(self),
            r ==> final(self)@ == spec_join(old(self)@, name@),
            r ==> !room_names(old(self)@).contains(name@),
    {
        if self.contains(name) {
            return false;
        }
        let ghost rv = self@;
        let n = self.users.len();
        let mut snapshot: Vec<String> = Vec::new();
        let mut i: usize = 0;
        while i < n
            invariant
                n == self.users.len(),
                self@ == rv,
                0 <= i <= n,
                snapshot@.len() == i,
                forall|j: int| 0 <= j < i ==> snapshot@[j]@ == (#[trigger] rv[j]).name,
            decreases n - i,
        {
            snapshot.push(self.users[i].name.clone());
            i = i + 1;
        }
        proof {
            assert(snapshot.deep_view() =~= room_names(rv));
        }
        let announcement = Message { from: name.clone(), content: MessageContent::Joined };
        self.deliver_all(&announcement);
        let roster = Message {
            from: name.clone(),
            content: MessageContent::UserList(snapshot),
        };
        let mut mailbox: Vec<Message> = Vec::new();
        mailbox.push(roster);
        self.users.push(Participant { name: name.clone(), mailbox });
        proof {
            let joined = spec_broadcast(rv, joined_msg(name@));
            assert(self.users@.last()@.mailbox =~= seq![roster_msg(name@, room_names(rv))]);
            assert(final(self)@ =~= joined.push(
                UserV { name: name@, mailbox: seq![roster_msg(name@, room_names(rv))] },
            ));
            assert forall|i2: int, j2: int|
                0 <= i2 < j2 < final(self)@.len() implies (#[trigger] final(self)@[i2]).name != (
            #[trigger] final(self)@[j2]).name by {
                if j2 < rv.len() {
                    assert(rv[i2].name != rv[j2].name);
                } else {
                    assert(final(self)@[j2].name == name@);
                    assert(final(self)@[i2].name == rv[i2].name);
                    assert(!room_contains(rv, name@));
                }
            }
            assert(room_names(rv).contains(name@) ==> room_contains(rv, name@)) by {
                if room_names(rv).contains(name@) {
                    let w = choose|w: int|
                        0 <= w < room_names(rv).len() && room_names(rv)[w] == name@;
                    assert(rv[w].name == name@);
                }
            }
        }
        true
    }

    /// Takes the entry with this name out of the registry, if there is one.
    fn remove_entry(&mut self, name: &String)
        requires
            old(self).wf(),
        ensures
            final(self).wf(),
            final(self)@ == spec_remove(old(self)@, name@),
            !room_contains(final(self)@, name@),
    {
        let ghost rv = self@;
        let n = self.users.len();
        let mut i: usize = 0;
        while i < n
            invariant
                n == self.users.len(),
                self@ == rv,
                rv == old(self)@,
                unique_names(rv),
                0 <= i <= n,
                forall|j: int| 0 <= j < i ==> (#[trigger] rv[j]).name != name@,
            decreases n - i,
        {
            if self.users[i].name.eq(name) {
                proof {
                    assert(rv[i as int].name == name@);
                    assert(room_contains(rv, name@));
                    let w = room_index(rv, name@);
                    assert(0 <= w < rv.len() && rv[w].name == name@);
                    assert(w == i);
                }
                self.users.remove(i);
                proof {
                    assert(final(self)@ =~= spec_remove(rv, name@));
                    assert forall|k: int|
                        0 <= k < final(self)@.len() implies (#[trigger] final(self)@[k]).name
                        != name@ by {
                        if k < i {
                            assert(final(self)@[k] == rv[k]);
                        } else {
                            assert(final(self)@[k] == rv[k + 1]);
                            assert(rv[i as int].name == name@);
                        }
                    }
                }
                return ;
            }
            i = i + 1;
        }
        proof {
            assert(!room_contains(rv, name@));
            assert(final(self)@ == spec_remove(rv, name@));
        }
    }

    /// Deregisters a participant on disconnect, then announces the departure
    /// to everyone remaining. Afterwards the name is no longer registered —
    /// immediately available for reuse.
    pub fn depart(&mut self, name: &String)
        requires
            old(self).wf(),
        ensures
            final(self).wf(),
            final(self)@ == spec_depart(old(self)@, name@),
            !room_contains(final(self)@, name@),
    {
        self.remove_entry(name);
        let ghost removed = self@;
        let announcement = Message { from: name.clone(), content: MessageContent::Left };
        self.deliver_all(&announcement);
        proof {
            lemma_broadcast_preserves_names(removed, left_msg(name@));
        }
    }
}

/// A broadcast changes mailboxes only: every entry keeps its place and its
/// name, so membership and name uniqueness are untouched.
pub proof fn lemma_broadcast_preserves_names(rv: Seq<UserV>, m: MsgV)
    ensures
        spec_broadcast(rv, m).len() == rv.len(),
        forall|k: int|
            0 <= k < rv.len() ==> (#[trigger] spec_broadcast(rv, m)[k]).name == rv[k].name,
{
}

/// Broadcasts one message to every currently-joined participant except its
/// sender: each other mailbox gains exactly this message at its tail, in
/// arrival order; the sender's own mailbox is untouched.
pub fn send_to_room(room: &mut Room, message: Message)
    ensures
        final(room)@ == spec_broadcast(old(room)@, message@),
{
    room.deliver_all(&message);
}

impl Room {
    /// Hands the participant's pending messages, oldest first, to their
    /// writer task, leaving the mailbox empty. An unknown name yields
    /// nothing and changes nothing.
    pub fn take_mailbox(&mut self, name: &String) -> (r: Vec<Message>)
        requires
            old(self).wf(),
        ensures
            final(self).wf(),
            !room_contains(old(self)@, name@) ==> *final(self) == *old(self) && r@.len() == 0,
            room_contains(old(self)@, name@) ==> r.deep_view() == mailbox_of(old(self)@, name@)
                && final(self)@ == old(self)@.update(
                room_index(old(self)@, name@),
                UserV { name: name@, mailbox: Seq::<MsgV>::empty() },
            ),
    {
        let ghost rv = self@;
        let n = self.users.len();
        let mut i: usize = 0;
        while i < n
            invariant
                n == self.users.len(),
                *self == *old(self),
                self@ == rv,
                rv == old(self)@,
                unique_names(rv),
                0 <= i <= n,
                forall|j: int| 0 <= j < i ==> (#[trigger] rv[j]).name != name@,
            decreases n - i,
        {
            if self.users[i].name.eq(name) {
                proof {
                    assert(rv[i as int].name == name@);
                    assert(room_contains(rv, name@));
                    let w = room_index(rv, name@);
                    assert(0 <= w < rv.len() && rv[w].name == name@);
                    assert(w == i);
                }
                let u = self.users.remove(i);
                let Participant { name: held, mailbox } = u;
                self.users.insert(i, Participant { name: held, mailbox: Vec::new() });
                proof {
                    assert(final(self)@ =~~= rv.update(
                        i as int,
                        UserV { name: name@, mailbox: Seq::<MsgV>::empty() },
                    ));
                    assert forall|i2: int, j2: int|
                        0 <= i2 < j2 < final(self)@.len() implies (#[trigger] final(self)@[i2]).name
                        != (#[trigger] final(self)@[j2]).name by {
                        assert(final(self)@[i2].name == rv[i2].name);
                        assert(final(self)@[j2].name == rv[j2].name);
                    }
                }
                return mailbox;
            }
            i = i + 1;
        }
        Vec::new()
    }
}

/// One line of the wire format: what the writer task serializes a message
/// to, exactly.
pub open spec fn spec_render(m: MsgV) -> Seq<char> {
    match m.content {
        ContentV::UserList(names) => "* The room contains: "@ + spec_join_names(names) + "\n"@,
        ContentV::Joined => "* "@ + m.from + " joined\n"@,
        ContentV::Left => "* "@ + m.from + " left\n"@,
        ContentV::Message(text) => "["@ + m.from + "] "@ + text + "\n"@,
    }
}

/// Names listed with a comma and a space between them.
pub open spec fn spec_join_names(names: Seq<Seq<char>>) -> Seq<char>
    decreases names.len(),
{
    if names.len() == 0 {
        Seq::<char>::empty()
    } else if names.len() == 1 {
        names[0]
    } else {
        spec_join_names(names.drop_last()) + ", "@ + names.last()
    }
}

/// Serializes one message to its wire line.
pub fn render_message(m: &Message) -> (r: String)
    ensures
        r@ == spec_render(m@),
{
    match &m.content {
        MessageContent::UserList(users) => {
            let ghost names = users.deep_view();
            let mut out = String::from_str("* The room contains: ");
            proof {
                assert(names.take(0) =~= Seq::<Seq<char>>::empty());
                assert(out@ =~= "* The room contains: "@ + spec_join_names(names.take(0)));
            }
            let n = users.len();
            let mut i: usize = 0;
            while i < n
                invariant
                    n == users.len(),
                    names == users.deep_view(),
                    0 <= i <= n,
                    out@ == "* The room contains: "@ + spec_join_names(names.take(i as int)),
                decreases n - i,
            {
                if i > 0 {
                    out.append(", ");
                }
                out.append(users[i].as_str());
                proof {
                    assert(names.take(i + 1).drop_last() =~= names.take(i as int));
                    assert(names.take(i + 1).last() == names[i as int]);
                    if i == 0 {
                        assert(out@ =~= "* The room contains: "@ + spec_join_names(
                            names.take(1),
                        ));
                    } else {
                        assert(out@ =~= "* The room contains: "@ + spec_join_names(
                            names.take(i + 1),
                        ));
                    }
                }
                i = i + 1;
            }
            out.append("\n");
            proof {
                assert(names.take(n as int) =~= names);
                assert(out@ =~= spec_render(m@));
            }
            out
        },
        MessageContent::Joined => {
            let mut out = String::from_str("* ");
            out.append(m.from.as_str());
            out.append(" joined\n");
            proof {
                assert(out@ =~= spec_render(m@));
            }
            out
        },
        MessageContent::Left => {
            let mut out = String::from_str("* ");
            out.append(m.from.as_str());
            out.append(" left\n");
            proof {
                assert(out@ =~= spec_render(m@));
            }
            out
        },
        MessageContent::Message(text) => {
            let mut out = String::from_str("[");
            out.append(m.from.as_str());
            out.append("] ");
            out.append(text.as_str());
            out.append("\n");
            proof {
                assert(out@ =~= spec_render(m@));
            }
            out
        },
    }
}

/// The prompt that opens every chat connection.
pub fn greeting() -> (r: String)
    ensures
        r@ == "Name pls:\n"@,
{
    String::from_str("Name pls:\n")
}

/// What the reader produced for a connection's first line.
pub enum FirstLine {
    /// A complete line arrived.
    Line(String),
    /// Reading failed before a line was complete.
    ReadError,
    /// The peer closed, or the naming-phase read timeout elapsed, before any
    /// line arrived.
    NoLine,
}

/// How the naming phase ends. One refusal is terminal for the connection;
/// there is no retry.
pub enum NameOutcome {
    /// The name was accepted; the participant is joined.
    Accepted,
    /// The connection is refused with this terminal message, then closed.
    Refused(String),
    /// The connection closes without any reply.
    Silent,
}

/// The naming phase: the first line must arrive in time, parse as a line,
/// be non-empty and alphanumeric-only, and not collide with a registered
/// name; each failure has its fixed terminal reply, and only acceptance
/// touches the registry.
pub fn process_name_line(room: &mut Room, first: &FirstLine) -> (out: NameOutcome)
    requires
        old(room).wf(),
    ensures
        final(room).wf(),
        first is NoLine ==> out is Silent && *final(room) == *old(room),
        first is ReadError ==> *final(room) == *old(room) && (out
            matches NameOutcome::Refused(msg) && msg@ == "Shoulda said a name."@),
        (first matches FirstLine::Line(l) && !valid_name(l@)) ==> *final(room) == *old(room) && (
        out matches NameOutcome::Refused(msg) && msg@ == "Name must be alphanumeric."@),
        (first matches FirstLine::Line(l) && valid_name(l@) && room_contains(old(room)@, l@))
            ==> *final(room) == *old(room) && (out matches NameOutcome::Refused(msg) && msg@
            == "Name already taken."@),
        first matches FirstLine::Line(l) ==> ((valid_name(l@) && !room_contains(old(room)@, l@))
            ==> (out is Accepted && final(room)@ == spec_join(old(room)@, l@))),
{
    match first {
        FirstLine::NoLine => NameOutcome::Silent,
        FirstLine::ReadError => NameOutcome::Refused(String::from_str("Shoulda said a name.")),
        FirstLine::Line(l) => {
            if !validate_name(l.as_str()) {
                NameOutcome::Refused(String::from_str("Name must be alphanumeric."))
            } else if !room.join(l) {
                NameOutcome::Refused(String::from_str("Name already taken."))
            } else {
                NameOutcome::Accepted
            }
        },
    }
}

/// One line read from a joined participant: blank lines are ignored; any
/// other line is broadcast as chat text to everyone but the sender.
pub fn process_chat_line(room: &mut Room, from: &String, line: String)
    ensures
        line@.len() == 0 ==> *final(room) == *old(room),
        line@.len() > 0 ==> final(room)@ == spec_broadcast(
            old(room)@,
            MsgV { from: from@, content: ContentV::Message(line@) },
        ),
{
    if line.as_str().is_empty() {
        return ;
    }
    let message = Message { from: from.clone(), content: MessageContent::Message(line) };
    room.deliver_all(&message);
}

/// Law: a broadcast delivers its message exactly once to every other
/// participant's mailbox, at the tail, and never to the sender's own.
pub proof fn lemma_broadcast_delivery(rv: Seq<UserV>, m: MsgV, k: int)
    requires
        0 <= k < rv.len(),
    ensures
        rv[k].name != m.from ==> spec_broadcast(rv, m)[k].mailbox == rv[k].mailbox.push(m),
        rv[k].name == m.from ==> spec_broadcast(rv, m)[k].mailbox == rv[k].mailbox,
{
}

/// Law: delivery to one recipient keeps the bus's send order — two
/// broadcasts land in every other participant's mailbox in the order they
/// were sent.
pub proof fn lemma_per_recipient_order(rv: Seq<UserV>, m1: MsgV, m2: MsgV, k: int)
    requires
        0 <= k < rv.len(),
        rv[k].name != m1.from,
        rv[k].name != m2.from,
    ensures
        spec_broadcast(spec_broadcast(rv, m1), m2)[k].mailbox == rv[k].mailbox.push(m1).push(m2),
{
    lemma_broadcast_delivery(rv, m1, k);
    lemma_broadcast_preserves_names(rv, m1);
    lemma_broadcast_delivery(spec_broadcast(rv, m1), m2, k);
}

/// Law: a successful join registers the name, so a second join under the
/// same name is refused while the first holder stays.
pub proof fn lemma_second_join_refused(rv: Seq<UserV>, n: Seq<char>)
    ensures
        room_contains(spec_join(rv, n), n),
{
    let joined = spec_join(rv, n);
    assert(joined[rv.len() as int].name == n);
}

/// Law: the roster snapshot a newcomer receives is the membership at the
/// instant of registration — later joiners cannot leak into it — and never
/// includes the newcomer's own name.
pub proof fn lemma_roster_snapshot(rv: Seq<UserV>, n: Seq<char>)
    requires
        !room_contains(rv, n),
    ensures
        mailbox_of(spec_join(rv, n), n) == seq![roster_msg(n, room_names(rv))],
        !room_names(rv).contains(n),
{
    let joined = spec_join(rv, n);
    lemma_broadcast_preserves_names(rv, joined_msg(n));
    assert(joined[rv.len() as int].name == n);
    assert(room_contains(joined, n));
    let w = room_index(joined, n);
    assert(0 <= w < joined.len() && joined[w].name == n);
    assert(w == rv.len());
    if room_names(rv).contains(n) {
        let w2 = choose|w2: int| 0 <= w2 < room_names(rv).len() && room_names(rv)[w2] == n;
        assert(rv[w2].name == n);
    }
}

/// Law: after a participant departs, their name is no longer registered, so
/// it is immediately available: a fresh join under it is accepted.
pub proof fn lemma_name_reusable(rv: Seq<UserV>, n: Seq<char>)
    requires
        unique_names(rv),
    ensures
        !room_contains(spec_depart(rv, n), n),
{
    let removed = spec_remove(rv, n);
    lemma_broadcast_preserves_names(removed, left_msg(n));
    if room_contains(rv, n) {
        let w = room_index(rv, n);
        assert(0 <= w < rv.len() && rv[w].name == n);
        assert forall|k: int| 0 <= k < removed.len() implies (#[trigger] removed[k]).name != n by {
            if k < w {
                assert(removed[k] == rv[k]);
            } else {
                assert(removed[k] == rv[k + 1]);
            }
        }
    }
}

} // verus!
