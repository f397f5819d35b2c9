//! A reference model of the coordination service, held in memory.
//!
//! The service owns what the processes of a run share: named counters, which
//! serve both to hand out ordinals and as barriers, and the ordered topic on
//! which records are exchanged. What the protocol may rely on is stated here
//! over the history of a run: the names in the order in which they were
//! announced, and the records in the order in which they were published.
//! However the calls of the processes interleave, the service sees them in
//! some order, and the laws below hold for every order.

use vstd::prelude::*;

verus! {

/// How often `name` was announced in `history`.
pub open spec fn occurrences(history: Seq<Seq<char>>, name: Seq<char>) -> nat
    decreases history.len(),
{
    if history.len() == 0 {
        0
    } else {
        occurrences(history.drop_last(), name) + if history.last() == name {
            1nat
        } else {
            0nat
        }
    }
}

/// The value the service returned to the announcement at position `at` of
/// `history`: the count of that name, this announcement included.
pub open spec fn reply_at(history: Seq<Seq<char>>, at: int) -> nat {
    occurrences(history.take(at + 1), history[at])
}

/// Whether the barrier on `name` with the given target has been released.
pub open spec fn released(history: Seq<Seq<char>>, name: Seq<char>, target: u64) -> bool {
    occurrences(history, name) >= target
}

/// The name of the counter that hands out the ordinals of a run.
pub open spec fn instance_seq_state() -> Seq<char> {
    "get_instance_seq"@
}

/// The name of the counter that hands out the ordinals within a group.
pub open spec fn group_seq_state(group: Seq<char>) -> Seq<char> {
    "get_group_seq_"@ + group
}

/// One more announcement adds one to the count of its name and leaves every
/// other count as it is: distinct names are independent counters.
pub proof fn lemma_occurrences_push(history: Seq<Seq<char>>, announced: Seq<char>, name: Seq<char>)
    ensures
        occurrences(history.push(announced), name) == occurrences(history, name) + if announced
            == name {
            1nat
        } else {
            0nat
        },
{
    assert(history.push(announced).drop_last() == history);
}

/// A count never exceeds the length of the history, and it only grows as the
/// history does.
pub proof fn lemma_occurrences_prefix(history: Seq<Seq<char>>, upto: int, name: Seq<char>)
    requires
        0 <= upto <= history.len(),
    ensures
        occurrences(history.take(upto), name) <= occurrences(history, name),
        occurrences(history.take(upto), name) <= upto,
    decreases history.len() - upto,
{
    lemma_occurrences_bound(history.take(upto), name);
    if upto == history.len() {
        assert(history.take(upto) == history);
    } else {
        lemma_occurrences_prefix(history, upto + 1, name);
        assert(history.take(upto + 1).drop_last() == history.take(upto));
    }
}

/// A count never exceeds the length of the history.
pub proof fn lemma_occurrences_bound(history: Seq<Seq<char>>, name: Seq<char>)
    ensures
        occurrences(history, name) <= history.len(),
    decreases history.len(),
{
    if history.len() > 0 {
        lemma_occurrences_bound(history.drop_last(), name);
    }
}

/// Ordinals are handed out without duplicates: of two announcements of the
/// same name the later one gets the larger value, and every value lies
/// between 1 and the number of announcements of that name.
pub proof fn lemma_replies_distinct(history: Seq<Seq<char>>, first: int, second: int)
    requires
        0 <= first < second < history.len(),
        history[first] == history[second],
    ensures
        1 <= reply_at(history, first) < reply_at(history, second) <= occurrences(
            history,
            history[first],
        ),
{
    let name = history[first];
    let upto_first = history.take(first + 1);
    let upto_second = history.take(second + 1);
    assert(upto_first.drop_last() == history.take(first));
    assert(upto_second.drop_last() == history.take(second));
    assert(history.take(second).take(first + 1) == upto_first);
    lemma_occurrences_prefix(history.take(second), first + 1, name);
    lemma_occurrences_prefix(history, second + 1, name);
}

/// Ordinals are handed out without gaps: every value from 1 to the number of
/// announcements of a name was returned to one of them.
pub proof fn lemma_replies_complete(history: Seq<Seq<char>>, name: Seq<char>, value: nat)
    requires
        1 <= value <= occurrences(history, name),
    ensures
        exists|at: int|
            0 <= at < history.len() && history[at] == name && #[trigger] reply_at(history, at)
                == value,
    decreases history.len(),
{
    let last = history.len() - 1;
    if history.last() == name && occurrences(history, name) == value {
        assert(history.take(last + 1) == history);
        assert(reply_at(history, last) == value);
    } else {
        let shorter = history.drop_last();
        lemma_replies_complete(shorter, name, value);
        let at = choose|at: int|
            0 <= at < shorter.len() && shorter[at] == name && #[trigger] reply_at(shorter, at)
                == value;
        assert(shorter.take(at + 1) == history.take(at + 1));
        assert(reply_at(history, at) == value);
    }
}

/// Whether `value` was returned to some announcement of `name`.
pub open spec fn handed_out(history: Seq<Seq<char>>, name: Seq<char>, value: nat) -> bool {
    exists|at: int|
        0 <= at < history.len() && history[at] == name && #[trigger] reply_at(history, at) == value
}

/// Ordinals are exact: the values returned to the announcements of a name
/// are the numbers from 1 to the number of those announcements, each handed
/// out once, however the announcements of other names fall between them.
pub proof fn lemma_ordinals_exact(history: Seq<Seq<char>>, name: Seq<char>)
    ensures
        forall|value: nat| #[trigger]
            handed_out(history, name, value) <==> 1 <= value <= occurrences(history, name),
        forall|first: int, second: int|
            0 <= first < second < history.len() && history[first] == name && history[second]
                == name ==> #[trigger] reply_at(history, first) != #[trigger] reply_at(
                history,
                second,
            ),
{
    assert forall|value: nat| #[trigger]
        handed_out(history, name, value) <==> 1 <= value <= occurrences(history, name) by {
        if handed_out(history, name, value) {
            let at = choose|at: int|
                0 <= at < history.len() && history[at] == name && #[trigger] reply_at(history, at)
                    == value;
            lemma_occurrences_prefix(history, at + 1, name);
            assert(history.take(at + 1).drop_last() == history.take(at));
        }
        if 1 <= value <= occurrences(history, name) {
            lemma_replies_complete(history, name, value);
        }
    }
    assert forall|first: int, second: int|
        0 <= first < second < history.len() && history[first] == name && history[second]
            == name implies #[trigger] reply_at(history, first) != #[trigger] reply_at(
        history,
        second,
    ) by {
        lemma_replies_distinct(history, first, second);
    }
}

/// A barrier stays closed until its target is reached: while fewer
/// processes than the target have announced the name, it is not released,
/// whatever else was announced; and once released it stays released.
pub proof fn lemma_barrier_needs_all(
    history: Seq<Seq<char>>,
    name: Seq<char>,
    target: u64,
    announced: Seq<char>,
)
    ensures
        occurrences(history, name) < target ==> !released(history, name, target),
        announced != name ==> released(history.push(announced), name, target) == released(
            history,
            name,
            target,
        ),
        released(history, name, target) ==> released(history.push(announced), name, target),
        occurrences(history, name) + 1 == target ==> released(history.push(name), name, target),
{
    lemma_occurrences_push(history, announced, name);
    lemma_occurrences_push(history, name, name);
}

/// The processes that announced `name`, where `who[at]` is the process that
/// made the announcement at position `at` of `history`.
pub open spec fn announcers(history: Seq<Seq<char>>, who: Seq<int>, name: Seq<char>) -> Set<int> {
    Set::new(
        |process: int|
            exists|at: int|
                0 <= at < history.len() && history[at] == name && #[trigger] who[at] == process,
    )
}

/// Whether no process announced `name` more than once.
pub open spec fn announced_once(history: Seq<Seq<char>>, who: Seq<int>, name: Seq<char>) -> bool {
    &&& who.len() == history.len()
    &&& forall|first: int, second: int|
        0 <= first < second < history.len() && history[first] == name && history[second] == name
            ==> #[trigger] who[first] != #[trigger] who[second]
}

/// When no process announces a name twice, its counter counts the processes
/// that announced it.
pub proof fn lemma_counter_counts_processes(
    history: Seq<Seq<char>>,
    who: Seq<int>,
    name: Seq<char>,
)
    requires
        announced_once(history, who, name),
    ensures
        announcers(history, who, name).finite(),
        announcers(history, who, name).len() == occurrences(history, name),
    decreases history.len(),
{
    let all = announcers(history, who, name);
    if history.len() == 0 {
        assert(all =~= Set::empty());
    } else {
        let last = history.len() - 1;
        let earlier = announcers(history.drop_last(), who.drop_last(), name);
        lemma_counter_counts_processes(history.drop_last(), who.drop_last(), name);
        if history.last() == name {
            assert forall|process: int| all.contains(process) <==> earlier.insert(
                who[last],
            ).contains(process) by {
                if all.contains(process) {
                    let at = choose|at: int|
                        0 <= at < history.len() && history[at] == name && #[trigger] who[at]
                            == process;
                    if at < last {
                        assert(history.drop_last()[at] == name && who.drop_last()[at] == process);
                    }
                }
                if earlier.contains(process) {
                    let at = choose|at: int|
                        0 <= at < last && history.drop_last()[at] == name
                            && #[trigger] who.drop_last()[at] == process;
                    assert(history[at] == name && who[at] == process);
                }
                if process == who[last] {
                    assert(history[last] == name && who[last] == process);
                }
            }
            assert(all =~= earlier.insert(who[last]));
            if earlier.contains(who[last]) {
                let at = choose|at: int|
                    0 <= at < last && history.drop_last()[at] == name
                        && #[trigger] who.drop_last()[at] == who[last];
                assert(who[at] != who[last]);
            }
        } else {
            assert forall|process: int| all.contains(process) <==> earlier.contains(process) by {
                if all.contains(process) {
                    let at = choose|at: int|
                        0 <= at < history.len() && history[at] == name && #[trigger] who[at]
                            == process;
                    assert(history.drop_last()[at] == name && who.drop_last()[at] == process);
                }
                if earlier.contains(process) {
                    let at = choose|at: int|
                        0 <= at < last && history.drop_last()[at] == name
                            && #[trigger] who.drop_last()[at] == process;
                    assert(history[at] == name && who[at] == process);
                }
            }
            assert(all =~= earlier);
        }
    }
}

/// A barrier waits for everyone. In a run of `processes` processes, numbered
/// from 0, in which no process announces a name twice, the barrier on that
/// name with all processes as its target is released only when every single
/// process has announced it: as long as one is missing, whoever waits there
/// keeps waiting.
pub proof fn lemma_barrier_waits_for_everyone(
    history: Seq<Seq<char>>,
    who: Seq<int>,
    name: Seq<char>,
    processes: u64,
    process: int,
)
    requires
        announced_once(history, who, name),
        forall|at: int| 0 <= at < who.len() ==> 0 <= #[trigger] who[at] < processes,
        0 <= process < processes,
    ensures
        released(history, name, processes) ==> announcers(history, who, name).contains(process),
        !announcers(history, who, name).contains(process) ==> !released(history, name, processes),
{
    let all = announcers(history, who, name);
    let everyone = vstd::set_lib::set_int_range(0, processes as int);
    lemma_counter_counts_processes(history, who, name);
    vstd::set_lib::lemma_int_range(0, processes as int);
    assert(all.subset_of(everyone));
    vstd::set_lib::lemma_len_subset(all, everyone);
    if released(history, name, processes) {
        vstd::set_lib::lemma_subset_equality(all, everyone);
        assert(everyone.contains(process));
    }
}

/// Whether `name` is among `names`.
pub open spec fn listed(names: Seq<String>, name: Seq<char>) -> bool {
    exists|i: int| 0 <= i < names.len() && (#[trigger] names[i])@ == name
}

/// The named counters of the service. Its view is the history of the run:
/// the names announced so far, oldest first.
pub struct SignalBoard {
    names: Vec<String>,
    counts: Vec<u64>,
    history: Ghost<Seq<Seq<char>>>,
}

impl View for SignalBoard {
    type V = Seq<Seq<char>>;

    closed spec fn view(&self) -> Seq<Seq<char>> {
        self.history@
    }
}

impl SignalBoard {
    #[verifier::type_invariant]
    spec fn valid(self) -> bool {
        &&& self.names.len() == self.counts.len()
        &&& forall|i: int, j: int|
            0 <= i < j < self.names.len() ==> (#[trigger] self.names[i])@ != (
            #[trigger] self.names[j])@
        &&& forall|i: int|
            0 <= i < self.names.len() ==> (#[trigger] self.counts[i]) == occurrences(
                self.history@,
                self.names[i]@,
            )
        &&& forall|name: Seq<char>| #[trigger]
            occurrences(self.history@, name) > 0 ==> listed(self.names@, name)
    }

    /// A board on which nothing has been announced.
    pub fn new() -> (board: Self)
        ensures
            board@ == Seq::<Seq<char>>::empty(),
    {
        SignalBoard { names: Vec::new(), counts: Vec::new(), history: Ghost(Seq::empty()) }
    }

    /// Where the counter of `name` stands among the counters, if it has one.
    fn position(&self, name: &String) -> (at: Option<usize>)
        ensures
            match at {
                Some(i) => i < self.names.len() && self.names[i as int]@ == name@,
                None => !listed(self.names@, name@),
            },
    {
        let mut i: usize = 0;
        while i < self.names.len()
            invariant
                i <= self.names.len(),
                forall|k: int| 0 <= k < i ==> (#[trigger] self.names[k])@ != name@,
            decreases self.names.len() - i,
        {
            if self.names[i] == *name {
                return Some(i);
            }
            i += 1;
        }
        None
    }

    /// How often `name` has been announced.
    pub fn count(&self, name: &str) -> (count: u64)
        ensures
            count == occurrences(self@, name@),
    {
        proof {
            use_type_invariant(self);
        }
        let key = String::from_str(name);
        match self.position(&key) {
            Some(i) => self.counts[i],
            None => 0,
        }
    }

    /// Whether the barrier on `name` is released for a process that waits
    /// for `target` announcements.
    pub fn is_released(&self, name: &str, target: u64) -> (open: bool)
        ensures
            open == released(self@, name@, target),
    {
        self.count(name) >= target
    }

    /// Announces `name` and returns the new value of its counter. Only a
    /// counter that cannot count further is left as it is, with `None`.
    pub fn signal(&mut self, name: &str) -> (reply: Option<u64>)
        ensures
            occurrences(old(self)@, name@) < u64::MAX ==> final(self)@ == old(self)@.push(name@)
                && reply == Some((occurrences(old(self)@, name@) + 1) as u64),
            occurrences(old(self)@, name@) >= u64::MAX ==> final(self)@ == old(self)@
                && reply is None,
    {
        proof {
            use_type_invariant(&*self);
        }
        let key = String::from_str(name);
        let found = self.position(&key);
        let mut taken = SignalBoard::new();
        std::mem::swap(self, &mut taken);
        let SignalBoard { names, counts, history } = taken;
        let mut names = names;
        let mut counts = counts;
        let ghost before = history@;
        let ghost after = before.push(name@);
        let reply: u64 = match found {
            Some(i) => {
                let count: u64 = counts[i];
                if count == u64::MAX {
                    *self = SignalBoard { names, counts, history };
                    return None;
                }
                counts.set(i, count + 1);
                count + 1
            },
            None => {
                names.push(key);
                counts.push(1);
                1
            },
        };
        proof {
            assert forall|i: int| 0 <= i < names.len() implies (#[trigger] counts[i])
                == occurrences(after, names[i]@) by {
                lemma_occurrences_push(before, name@, names[i]@);
            }
            assert forall|other: Seq<char>| #[trigger]
                occurrences(after, other) > 0 implies listed(names@, other) by {
                lemma_occurrences_push(before, name@, other);
                if other == name@ {
                    match found {
                        Some(i) => {
                            assert(names[i as int]@ == other);
                        },
                        None => {
                            assert(names[names.len() - 1]@ == other);
                        },
                    }
                } else {
                    let k = choose|k: int|
                        0 <= k < old(self).names.len() && (#[trigger] old(self).names[k])@ == other;
                    assert(names[k]@ == other);
                }
            }
            lemma_occurrences_push(before, name@, name@);
        }
        *self = SignalBoard { names, counts, history: Ghost(after) };
        Some(reply)
    }

    /// Hands out the next ordinal of the run: the first caller gets 1.
    pub fn allocate_sequence(&mut self) -> (seq: Option<u64>)
        ensures
            occurrences(old(self)@, instance_seq_state()) < u64::MAX ==> final(self)@ == old(
                self,
            )@.push(instance_seq_state()) && seq == Some(
                (occurrences(old(self)@, instance_seq_state()) + 1) as u64,
            ),
            occurrences(old(self)@, instance_seq_state()) >= u64::MAX ==> final(self)@ == old(
                self,
            )@ && seq is None,
    {
        self.signal(instance_seq_name())
    }
}

/// The name of the counter that hands out the ordinals of a run.
pub fn instance_seq_name() -> (name: &'static str)
    ensures
        name@ == instance_seq_state(),
{
    "get_instance_seq"
}

/// The name of the counter that hands out the ordinals within the group
/// `group`.
pub fn group_seq_name(group: &str) -> (name: String)
    ensures
        name@ == group_seq_state(group@),
{
    String::from_str("get_group_seq_").concat(group)
}

/// One ordered topic of the service. Its view is the sequence of the records
/// published so far, oldest first.
pub struct Topic<T> {
    log: Vec<T>,
}

impl<T> View for Topic<T> {
    type V = Seq<T>;

    closed spec fn view(&self) -> Seq<T> {
        self.log@
    }
}

impl<T> Topic<T> {
    /// A topic on which nothing has been published.
    pub fn new() -> (topic: Self)
        ensures
            topic@ == Seq::<T>::empty(),
    {
        Topic { log: Vec::new() }
    }

    /// Appends a record and returns its place on the topic, counted from 1.
    pub fn publish(&mut self, record: T) -> (place: usize)
        ensures
            final(self)@ == old(self)@.push(record),
            place == final(self)@.len(),
    {
        self.log.push(record);
        self.log.len()
    }

    /// The number of records on the topic.
    pub fn len(&self) -> (n: usize)
        ensures
            n == self@.len(),
    {
        self.log.len()
    }

    /// The record a subscriber that has read `cursor` records gets next, or
    /// `None` while the topic has no more: the subscriber then has to wait.
    pub fn read(&self, cursor: usize) -> (record: Option<&T>)
        ensures
            cursor < self@.len() ==> record == Some(&self@[cursor as int]),
            cursor >= self@.len() ==> record is None,
    {
        if cursor < self.log.len() {
            Some(&self.log[cursor])
        } else {
            None
        }
    }
}

/// A topic only grows at its end: what a subscriber has read stays what
/// every later subscriber reads.
pub proof fn lemma_topic_head_stable<T>(log: Seq<T>, later: Seq<T>, n: int)
    requires
        0 <= n <= log.len(),
    ensures
        (log + later).take(n) == log.take(n),
{
}

} // verus!
