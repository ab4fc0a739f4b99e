//! Building the membership snapshot from resolved addresses.

use vstd::prelude::*;
use vstd::string::*;

verus! {

/// The scheme prefix of every membership snapshot.
pub open spec fn scheme() -> Seq<char> {
    "gcomm://"@
}

/// The text of each address of a list, in the list's order.
pub open spec fn texts(v: Seq<String>) -> Seq<Seq<char>> {
    Seq::new(v.len(), |i: int| v[i]@)
}

/// The character that stands for a digit below ten.
pub open spec fn digit_char(d: nat) -> char {
    if d == 0 {
        '0'
    } else if d == 1 {
        '1'
    } else if d == 2 {
        '2'
    } else if d == 3 {
        '3'
    } else if d == 4 {
        '4'
    } else if d == 5 {
        '5'
    } else if d == 6 {
        '6'
    } else if d == 7 {
        '7'
    } else if d == 8 {
        '8'
    } else {
        '9'
    }
}

/// A number in decimal, without sign or leading zeros.
pub open spec fn decimal(n: nat) -> Seq<char>
    decreases n,
{
    if n < 10 {
        seq![digit_char(n)]
    } else {
        decimal(n / 10).push(digit_char(n % 10))
    }
}

/// The resolved addresses that make up the membership: in the order of
/// their first occurrence, each once, without the excluded ones.
pub open spec fn survivors(resolved: Seq<Seq<char>>, excluded: Set<Seq<char>>) -> Seq<Seq<char>>
    decreases resolved.len(),
{
    if resolved.len() == 0 {
        Seq::empty()
    } else {
        let before = survivors(resolved.drop_last(), excluded);
        let a = resolved.last();
        if excluded.contains(a) || before.contains(a) {
            before
        } else {
            before.push(a)
        }
    }
}

/// One member of a snapshot: the address, a colon, the port.
pub open spec fn member(addr: Seq<char>, port: nat) -> Seq<char> {
    addr + seq![':'] + decimal(port)
}

/// The members for a list of addresses, in the list's order.
pub open spec fn members(addrs: Seq<Seq<char>>, port: nat) -> Seq<Seq<char>> {
    Seq::new(addrs.len(), |i: int| member(addrs[i], port))
}

/// The parts joined by commas.
pub open spec fn join(parts: Seq<Seq<char>>) -> Seq<char>
    decreases parts.len(),
{
    if parts.len() == 0 {
        Seq::empty()
    } else if parts.len() == 1 {
        parts[0]
    } else {
        join(parts.drop_last()) + seq![','] + parts.last()
    }
}

/// The serialized snapshot whose members are the given addresses.
pub open spec fn snapshot_text(addrs: Seq<Seq<char>>, port: nat) -> Seq<char> {
    scheme() + join(members(addrs, port))
}

/// The candidate snapshot for a resolved address list and an exclusion set.
pub open spec fn candidate_text(
    resolved: Seq<Seq<char>>,
    excluded: Set<Seq<char>>,
    port: nat,
) -> Seq<char> {
    snapshot_text(survivors(resolved, excluded), port)
}

/// A membership snapshot in its serialized form. Two snapshots are equal
/// when their texts are.
#[derive(Debug, PartialEq, Eq)]
pub struct Snapshot {
    text: String,
}

impl View for Snapshot {
    type V = Seq<char>;

    closed spec fn view(&self) -> Seq<char> {
        self.text@
    }
}

impl Clone for Snapshot {
    fn clone(&self) -> (copy: Self)
        ensures
            copy@ == self@,
    {
        Snapshot { text: self.text.clone() }
    }
}

impl Snapshot {
    /// The snapshot without members: the scheme prefix alone.
    pub fn empty() -> (s: Snapshot)
        ensures
            s@ == scheme(),
    {
        Snapshot { text: String::from_str("gcomm://") }
    }

    /// The serialized text.
    pub fn as_str(&self) -> (t: &str)
        ensures
            t@ == self@,
    {
        self.text.as_str()
    }

    /// A copy of the serialized text.
    pub fn to_text(&self) -> (t: String)
        ensures
            t@ == self@,
    {
        self.text.clone()
    }

    /// Whether two snapshots have the same text.
    pub fn same_as(&self, other: &Snapshot) -> (same: bool)
        ensures
            same == (self@ == other@),
    {
        self.text == other.text
    }

    /// Whether the snapshot has no members.
    pub fn is_empty(&self) -> (none: bool)
        ensures
            none == (self@ == scheme()),
    {
        let prefix = String::from_str("gcomm://");
        self.text == prefix
    }
}

/// Whether an address stands in a list, by exact match of its text.
pub fn contains_address(list: &Vec<String>, addr: &String) -> (found: bool)
    ensures
        found == texts(list@).contains(addr@),
{
    let mut i: usize = 0;
    while i < list.len()
        invariant
            i <= list.len(),
            forall|j: int| 0 <= j < i ==> (#[trigger] texts(list@)[j]) != addr@,
        decreases list.len() - i,
    {
        if list[i] == *addr {
            assert(texts(list@)[i as int] == addr@);
            return true;
        }
        i += 1;
    }
    false
}

/// The addresses that stay: `resolved` without what `excluded` holds, each
/// address once, in the order in which it first came.
pub fn surviving_addresses(resolved: &Vec<String>, excluded: &Vec<String>) -> (kept: Vec<String>)
    ensures
        texts(kept@) == survivors(texts(resolved@), texts(excluded@).to_set()),
{
    let mut kept: Vec<String> = Vec::new();
    let mut i: usize = 0;
    assert(texts(resolved@).take(0) =~= Seq::<Seq<char>>::empty());
    assert(texts(kept@) =~= Seq::<Seq<char>>::empty());
    while i < resolved.len()
        invariant
            i <= resolved.len(),
            texts(kept@) == survivors(texts(resolved@).take(i as int), texts(excluded@).to_set()),
        decreases resolved.len() - i,
    {
        let ghost before = texts(kept@);
        assert(texts(resolved@).take(i + 1).drop_last() =~= texts(resolved@).take(i as int));
        assert(texts(resolved@).take(i + 1).last() == resolved@[i as int]@);
        let out = contains_address(excluded, &resolved[i]);
        let seen = contains_address(&kept, &resolved[i]);
        if !out && !seen {
            kept.push(resolved[i].clone());
            assert(texts(kept@) =~= before.push(resolved@[i as int]@));
        }
        i += 1;
    }
    assert(texts(resolved@).take(resolved.len() as int) =~= texts(resolved@));
    kept
}

/// The text of one digit.
fn digit_str(d: u32) -> (s: &'static str)
    requires
        d < 10,
    ensures
        s@ == seq![digit_char(d as nat)],
{
    proof {
        reveal_strlit("0");
        reveal_strlit("1");
        reveal_strlit("2");
        reveal_strlit("3");
        reveal_strlit("4");
        reveal_strlit("5");
        reveal_strlit("6");
        reveal_strlit("7");
        reveal_strlit("8");
        reveal_strlit("9");
    }
    let s = if d == 0 {
        "0"
    } else if d == 1 {
        "1"
    } else if d == 2 {
        "2"
    } else if d == 3 {
        "3"
    } else if d == 4 {
        "4"
    } else if d == 5 {
        "5"
    } else if d == 6 {
        "6"
    } else if d == 7 {
        "7"
    } else if d == 8 {
        "8"
    } else {
        "9"
    };
    assert(s@ =~= seq![digit_char(d as nat)]);
    s
}

/// A number written in decimal.
pub fn decimal_text(n: u32) -> (s: String)
    ensures
        s@ == decimal(n as nat),
    decreases n,
{
    if n < 10 {
        String::from_str(digit_str(n))
    } else {
        let mut s = decimal_text(n / 10);
        s.append(digit_str(n % 10));
        assert(s@ =~= decimal((n / 10) as nat).push(digit_char((n % 10) as nat)));
        s
    }
}

/// Serializes a list of member addresses: the scheme prefix, then each
/// address with the port, joined by commas.
pub fn format_snapshot(addrs: &Vec<String>, port: u32) -> (s: Snapshot)
    ensures
        s@ == snapshot_text(texts(addrs@), port as nat),
{
    let port_text = decimal_text(port);
    let mut list = String::new();
    let mut i: usize = 0;
    let ghost all = members(texts(addrs@), port as nat);
    assert(all.take(0) =~= Seq::<Seq<char>>::empty());
    while i < addrs.len()
        invariant
            i <= addrs.len(),
            port_text@ == decimal(port as nat),
            all == members(texts(addrs@), port as nat),
            list@ == join(all.take(i as int)),
        decreases addrs.len() - i,
    {
        proof {
            reveal_strlit(",");
            reveal_strlit(":");
            assert(all.take(i + 1).drop_last() =~= all.take(i as int));
            assert(all.take(i + 1).last() == member(addrs@[i as int]@, port as nat));
        }
        let ghost before = list@;
        if i > 0 {
            list.append(",");
            assert(list@ =~= before + seq![',']);
        }
        list.append(addrs[i].as_str());
        list.append(":");
        list.append(port_text.as_str());
        assert(list@ =~= join(all.take(i + 1))) by {
            let m = member(addrs@[i as int]@, port as nat);
            if i == 0 {
                assert(list@ =~= m);
            } else {
                assert(list@ =~= before + seq![','] + m);
            }
        }
        i += 1;
    }
    assert(all.take(addrs.len() as int) =~= all);
    let mut text = String::from_str("gcomm://");
    text.append(list.as_str());
    Snapshot { text }
}

/// Builds the candidate snapshot: the resolved addresses without the
/// excluded ones, each once, each with the port.
pub fn build_snapshot(resolved: &Vec<String>, excluded: &Vec<String>, port: u32) -> (s: Snapshot)
    ensures
        s@ == candidate_text(texts(resolved@), texts(excluded@).to_set(), port as nat),
{
    let kept = surviving_addresses(resolved, excluded);
    format_snapshot(&kept, port)
}

/// The built membership holds exactly the resolved addresses that are not
/// excluded, and holds none of them twice.
pub proof fn lemma_survivors_exact(resolved: Seq<Seq<char>>, excluded: Set<Seq<char>>)
    ensures
        forall|a: Seq<char>|
            (#[trigger] survivors(resolved, excluded).contains(a)) <==> (resolved.contains(a)
                && !excluded.contains(a)),
        survivors(resolved, excluded).no_duplicates(),
    decreases resolved.len(),
{
    if resolved.len() > 0 {
        let front = resolved.drop_last();
        let a = resolved.last();
        let before = survivors(front, excluded);
        lemma_survivors_exact(front, excluded);
        let now = survivors(resolved, excluded);
        assert forall|b: Seq<char>|
            (#[trigger] now.contains(b)) <==> (resolved.contains(b) && !excluded.contains(b)) by {
            assert(before.contains(b) <==> (front.contains(b) && !excluded.contains(b)));
            if now.contains(b) {
                let k = choose|k: int| 0 <= k < now.len() && now[k] == b;
                if k < before.len() {
                    assert(before[k] == b);
                    assert(before.contains(b));
                    let j = choose|j: int| 0 <= j < front.len() && front[j] == b;
                    assert(resolved[j] == b);
                } else {
                    assert(b == a);
                    assert(resolved[resolved.len() - 1] == b);
                }
            }
            if resolved.contains(b) && !excluded.contains(b) {
                let j = choose|j: int| 0 <= j < resolved.len() && resolved[j] == b;
                if j < front.len() {
                    assert(front[j] == b);
                    assert(front.contains(b));
                    let k = choose|k: int| 0 <= k < before.len() && before[k] == b;
                    assert(now[k] == b);
                } else {
                    if before.contains(b) {
                    } else {
                        assert(now[now.len() - 1] == b);
                    }
                }
            }
        }
    }
}

/// Exclusion correctness: the candidate is the scheme prefix and the
/// comma-joined members; the members' addresses are exactly the resolved
/// addresses that are not excluded, none of them twice; and each member is
/// its address, a colon and the port.
pub proof fn lemma_candidate_holds_exactly_unexcluded(
    resolved: Seq<Seq<char>>,
    excluded: Set<Seq<char>>,
    port: nat,
)
    ensures
        ({
            let kept = survivors(resolved, excluded);
            let parts = members(kept, port);
            &&& candidate_text(resolved, excluded, port) == scheme() + join(parts)
            &&& forall|a: Seq<char>| (#[trigger] kept.contains(a)) <==> (resolved.contains(a)
                && !excluded.contains(a))
            &&& kept.no_duplicates()
            &&& parts.len() == kept.len()
            &&& forall|i: int|
                0 <= i < kept.len() ==> (#[trigger] parts[i]) == kept[i] + seq![':'] + decimal(
                    port,
                )
        }),
{
    lemma_survivors_exact(resolved, excluded);
}

/// Where every resolved address is excluded, the candidate is the scheme
/// prefix alone.
pub proof fn lemma_all_excluded_is_empty(
    resolved: Seq<Seq<char>>,
    excluded: Set<Seq<char>>,
    port: nat,
)
    requires
        forall|a: Seq<char>| resolved.contains(a) ==> excluded.contains(a),
    ensures
        survivors(resolved, excluded).len() == 0,
        candidate_text(resolved, excluded, port) == scheme(),
{
    lemma_survivors_exact(resolved, excluded);
    let kept = survivors(resolved, excluded);
    if kept.len() > 0 {
        assert(kept.contains(kept[0]));
    }
    assert(members(kept, port) =~= Seq::<Seq<char>>::empty());
    assert(scheme() + join(members(kept, port)) =~= scheme());
}

/// A joined list is at least as long as its last part.
proof fn lemma_join_covers_last(parts: Seq<Seq<char>>)
    requires
        parts.len() > 0,
    ensures
        join(parts).len() >= parts.last().len(),
{
}

/// A snapshot with a member is not the empty snapshot.
pub proof fn lemma_members_show(addrs: Seq<Seq<char>>, port: nat)
    requires
        addrs.len() > 0,
    ensures
        snapshot_text(addrs, port) != scheme(),
{
    let parts = members(addrs, port);
    lemma_join_covers_last(parts);
    assert(parts.last() == member(addrs.last(), port));
    assert(member(addrs.last(), port).len() > 0);
    assert(snapshot_text(addrs, port).len() > scheme().len());
}

} // verus!
