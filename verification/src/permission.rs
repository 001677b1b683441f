//! The permission coordinator — a rendezvous table of opaque `perm-<n>`
//! tickets — and the rules that pick a reply option for a
//! `session/request_permission` reverse request.

use vstd::prelude::*;
use crate::strutil::{push_str, str_eq, string_eq_str};
use crate::numfmt::{decimal_rep, format_u64, lemma_decimal_rep_injective, lemma_concat_cancel_left};

verus! {

/// The identifier minted for the `n`-th permission ticket.
pub open spec fn perm_label(n: nat) -> Seq<char> {
    "perm-"@ + decimal_rep(n)
}

proof fn lemma_perm_label_injective(a: nat, b: nat)
    requires
        perm_label(a) == perm_label(b),
    ensures
        a == b,
{
    lemma_concat_cancel_left("perm-"@, decimal_rep(a), decimal_rep(b));
    lemma_decimal_rep_injective(a, b);
}

struct TicketEntry {
    num: u64,
    id: String,
}

/// Index of the first ticket carrying `id`, or -1.
pub open spec fn find_ticket_from(s: Seq<(u64, Seq<char>)>, id: Seq<char>, i: int) -> int
    decreases s.len() - i,
    when 0 <= i <= s.len()
{
    if i >= s.len() {
        -1
    } else if s[i].1 == id {
        i
    } else {
        find_ticket_from(s, id, i + 1)
    }
}

proof fn lemma_find_ticket_shift(s: Seq<(u64, Seq<char>)>, id: Seq<char>, i: int)
    requires
        0 <= i <= s.len(),
        forall|j: int| 0 <= j < i ==> s[j].1 != id,
    ensures
        find_ticket_from(s, id, 0) == find_ticket_from(s, id, i),
    decreases i,
{
    if i > 0 {
        lemma_find_ticket_shift(s, id, i - 1);
    }
}

proof fn lemma_find_ticket_found(s: Seq<(u64, Seq<char>)>, id: Seq<char>, i: int)
    requires
        0 <= i <= s.len(),
        forall|j: int| 0 <= j < i ==> s[j].1 != id,
        i < s.len() ==> s[i].1 == id,
    ensures
        i < s.len() ==> find_ticket_from(s, id, 0) == i,
        i == s.len() ==> find_ticket_from(s, id, 0) == -1,
{
    lemma_find_ticket_shift(s, id, i);
}

/// The fingerprinted rendezvous table: it mints opaque permission ids and
/// holds each until an external actor resolves it with a grant or denial.
pub struct PermissionCoordinator {
    issued: u64,
    tickets: Vec<TicketEntry>,
}

impl PermissionCoordinator {
    /// How many tickets have ever been minted.
    pub closed spec fn issued_count(self) -> nat {
        self.issued as nat
    }

    /// The outstanding tickets, as (number, identifier) pairs in mint
    /// order.
    pub closed spec fn tickets_view(self) -> Seq<(u64, Seq<char>)> {
        self.tickets@.map(|i: int, t: TicketEntry| (t.num, t.id@))
    }

    /// Index of the outstanding ticket carrying `id`, or -1.
    pub open spec fn spec_find(self, id: Seq<char>) -> int {
        find_ticket_from(self.tickets_view(), id, 0)
    }

    /// Every ticket carries the identifier minted from its own number,
    /// and the numbers are distinct and no larger than the counter.
    pub open spec fn wf(self) -> bool {
        &&& (forall|i: int|
            0 <= i < self.tickets_view().len() ==> {
                &&& 1 <= (#[trigger] self.tickets_view()[i]).0
                &&& self.tickets_view()[i].0 <= self.issued_count()
                &&& self.tickets_view()[i].1 == perm_label(self.tickets_view()[i].0 as nat)
            })
        &&& (forall|i: int, j: int|
            0 <= i < self.tickets_view().len() && 0 <= j < self.tickets_view().len() && i != j
                ==> (#[trigger] self.tickets_view()[i]).0 != (#[trigger] self.tickets_view()[j]).0)
    }

    proof fn lemma_ticket_ids_distinct(self)
        requires
            self.wf(),
        ensures
            forall|i: int, j: int|
                0 <= i < self.tickets_view().len() && 0 <= j < self.tickets_view().len() && i != j
                    ==> (#[trigger] self.tickets_view()[i]).1 != (
                #[trigger] self.tickets_view()[j]).1,
    {
        assert forall|i: int, j: int|
            0 <= i < self.tickets_view().len() && 0 <= j < self.tickets_view().len() && i != j
                implies (#[trigger] self.tickets_view()[i]).1 != (
        #[trigger] self.tickets_view()[j]).1 by {
            if self.tickets_view()[i].1 == self.tickets_view()[j].1 {
                lemma_perm_label_injective(
                    self.tickets_view()[i].0 as nat,
                    self.tickets_view()[j].0 as nat,
                );
            }
        }
    }

    pub fn new() -> (r: Self)
        ensures
            r.wf(),
            r.issued_count() == 0,
            r.tickets_view().len() == 0,
    {
        let r = PermissionCoordinator { issued: 0, tickets: Vec::new() };
        proof {
            assert(r.tickets_view() =~= Seq::<(u64, Seq<char>)>::empty());
        }
        r
    }

    /// How many tickets have ever been minted; identifiers run out at
    /// `u64::MAX`.
    pub fn minted(&self) -> (r: u64)
        ensures
            r == self.issued_count(),
    {
        self.issued
    }

    /// Mints the next ticket id `perm-<n>` and registers it as pending.
    /// The returned identifier is what the broker broadcasts and what an
    /// external actor later resolves.
    pub fn register(&mut self) -> (r: String)
        requires
            old(self).wf(),
            old(self).issued_count() < u64::MAX,
        ensures
            final(self).wf(),
            final(self).issued_count() == old(self).issued_count() + 1,
            r@ == perm_label(final(self).issued_count()),
            final(self).tickets_view() == old(self).tickets_view().push(
                ((old(self).issued_count() + 1) as u64, r@),
            ),
            final(self).spec_find(r@) >= 0,
    {
        let num = self.issued + 1;
        self.issued = num;
        let mut id: String = "perm-".to_owned();
        let digits = format_u64(num);
        push_str(&mut id, digits.as_str());
        let entry = TicketEntry { num, id: id.clone() };
        self.tickets.push(entry);
        proof {
            assert(self.tickets_view() =~= old(self).tickets_view().push((num, id@)));
            let s = self.tickets_view();
            assert(s[s.len() - 1].1 == id@);
            if self.spec_find(id@) < 0 {
                lemma_find_ticket_contains(s, id@);
            }
        }
        id
    }

    /// Removes the ticket for `id` and reports the decision to deliver:
    /// `Some(granted)` when the id was outstanding, `None` when it was
    /// not. A ticket resolves at most once: after a successful resolve the
    /// same id is no longer outstanding.
    pub fn resolve(&mut self, id: &str, granted: bool) -> (r: Option<bool>)
        requires
            old(self).wf(),
        ensures
            final(self).wf(),
            final(self).issued_count() == old(self).issued_count(),
            r == if old(self).spec_find(id@) >= 0 {
                Some(granted)
            } else {
                None::<bool>
            },
            final(self).spec_find(id@) == -1,
            old(self).spec_find(id@) < 0 ==> final(self).tickets_view() == old(
                self,
            ).tickets_view(),
            old(self).spec_find(id@) >= 0 ==> final(self).tickets_view() == old(
                self,
            ).tickets_view().remove(old(self).spec_find(id@)),
    {
        let mut i: usize = 0;
        loop
            invariant_except_break
                0 <= i <= self.tickets_view().len(),
                forall|j: int| 0 <= j < i ==> self.tickets_view()[j].1 != id@,
            ensures
                self.spec_find(id@) >= 0 ==> i < self.tickets_view().len() && self.spec_find(id@)
                    == i && self.tickets_view()[i as int].1 == id@,
                self.spec_find(id@) < 0 ==> i == self.tickets_view().len() && self.spec_find(id@)
                    == -1,
            decreases self.tickets_view().len() - i,
        {
            if i >= self.tickets.len() {
                proof {
                    lemma_find_ticket_found(self.tickets_view(), id@, i as int);
                }
                break;
            }
            if string_eq_str(&self.tickets[i].id, id) {
                proof {
                    lemma_find_ticket_found(self.tickets_view(), id@, i as int);
                }
                break;
            }
            i = i + 1;
        }
        if i < self.tickets.len() {
            self.tickets.remove(i);
            proof {
                old(self).lemma_ticket_ids_distinct();
                let s = self.tickets_view();
                assert(s =~= old(self).tickets_view().subrange(0, i as int) + old(
                    self,
                ).tickets_view().subrange(
                    i as int + 1,
                    old(self).tickets_view().len() as int,
                ));
                assert(s =~= old(self).tickets_view().remove(i as int));
                assert forall|j: int| 0 <= j < s.len() implies (#[trigger] s[j]).1 != id@ by {
                    if j < i {
                        assert(s[j] == old(self).tickets_view()[j]);
                    } else {
                        assert(s[j] == old(self).tickets_view()[j + 1]);
                    }
                }
                lemma_find_ticket_found(s, id@, s.len() as int);
            }
            Some(granted)
        } else {
            None
        }
    }
}

proof fn lemma_find_ticket_contains(s: Seq<(u64, Seq<char>)>, id: Seq<char>)
    requires
        s.len() > 0,
        s[s.len() - 1].1 == id,
    ensures
        find_ticket_from(s, id, 0) >= 0,
{
    lemma_find_ticket_ge(s, id, 0);
}

proof fn lemma_find_ticket_ge(s: Seq<(u64, Seq<char>)>, id: Seq<char>, i: int)
    requires
        0 <= i <= s.len(),
        exists|j: int| i <= j < s.len() && s[j].1 == id,
    ensures
        i <= find_ticket_from(s, id, i) < s.len(),
    decreases s.len() - i,
{
    if s[i].1 == id {
    } else {
        lemma_find_ticket_ge(s, id, i + 1);
    }
}

/// The error text for resolving an unknown permission id.
pub open spec fn unknown_permission_text(id: Seq<char>) -> Seq<char> {
    "unknown permission request id: "@ + id
}

/// Hands an external actor's grant/deny decision to the coordinator.
/// Succeeds exactly when the id is outstanding; an unknown id — including
/// one already resolved — fails with the documented error. The resolved
/// ticket alone leaves the table; every other ticket is untouched.
pub fn respond_permission(coordinator: &mut PermissionCoordinator, permission_id: &str, granted: bool) -> (r:
    Result<bool, String>)
    requires
        old(coordinator).wf(),
    ensures
        final(coordinator).wf(),
        final(coordinator).issued_count() == old(coordinator).issued_count(),
        old(coordinator).spec_find(permission_id@) >= 0 ==> (r matches Ok(g) && g == granted),
        old(coordinator).spec_find(permission_id@) < 0 ==> (r matches Err(m) && m@
            == unknown_permission_text(permission_id@)),
        final(coordinator).spec_find(permission_id@) == -1,
        old(coordinator).spec_find(permission_id@) < 0 ==> final(coordinator).tickets_view()
            == old(coordinator).tickets_view(),
        old(coordinator).spec_find(permission_id@) >= 0 ==> final(coordinator).tickets_view()
            == old(coordinator).tickets_view().remove(old(coordinator).spec_find(permission_id@)),
{
    match coordinator.resolve(permission_id, granted) {
        Some(g) => Ok(g),
        None => {
            let mut m: String = "unknown permission request id: ".to_owned();
            push_str(&mut m, permission_id);
            Err(m)
        },
    }
}

/// One entry of a `session/request_permission` options list, as the peer
/// supplied it: either field may be missing.
pub struct PermissionOption {
    pub option_id: Option<String>,
    pub kind: Option<String>,
}

/// Whether an option's kind allows the tool call.
pub open spec fn kind_allows(o: PermissionOption) -> bool {
    match o.kind {
        Some(k) => k@ == "allow_once"@ || k@ == "allow_always"@,
        None => false,
    }
}

/// Whether an option's kind is a one-time rejection.
pub open spec fn kind_rejects(o: PermissionOption) -> bool {
    match o.kind {
        Some(k) => k@ == "reject_once"@,
        None => false,
    }
}

/// An option that can actually be selected for allowing: an allow kind
/// together with a present id.
pub open spec fn selectable_allow(o: PermissionOption) -> bool {
    kind_allows(o) && o.option_id is Some
}

/// An option that can actually be selected for rejecting.
pub open spec fn selectable_reject(o: PermissionOption) -> bool {
    kind_rejects(o) && o.option_id is Some
}

/// Index of the first option satisfying `allow` (true) or `reject`
/// (false) at or after `i`, or -1.
pub open spec fn find_selectable_from(s: Seq<PermissionOption>, allow: bool, i: int) -> int
    decreases s.len() - i,
    when 0 <= i <= s.len()
{
    if i >= s.len() {
        -1
    } else if (if allow {
        selectable_allow(s[i])
    } else {
        selectable_reject(s[i])
    }) {
        i
    } else {
        find_selectable_from(s, allow, i + 1)
    }
}

proof fn lemma_find_selectable_shift(s: Seq<PermissionOption>, allow: bool, i: int)
    requires
        0 <= i <= s.len(),
        forall|j: int|
            0 <= j < i ==> !(if allow {
                selectable_allow(s[j])
            } else {
                selectable_reject(s[j])
            }),
    ensures
        find_selectable_from(s, allow, 0) == find_selectable_from(s, allow, i),
    decreases i,
{
    if i > 0 {
        lemma_find_selectable_shift(s, allow, i - 1);
    }
}

fn is_allow_kind(o: &PermissionOption) -> (r: bool)
    ensures
        r == kind_allows(*o),
{
    match &o.kind {
        Some(k) => {
            let a = string_eq_str(k, "allow_once");
            let b = string_eq_str(k, "allow_always");
            a || b
        },
        None => false,
    }
}

fn is_reject_kind(o: &PermissionOption) -> (r: bool)
    ensures
        r == kind_rejects(*o),
{
    match &o.kind {
        Some(k) => string_eq_str(k, "reject_once"),
        None => false,
    }
}

fn find_selectable(options: &Vec<PermissionOption>, allow: bool) -> (r: Option<usize>)
    ensures
        match r {
            Some(i) => find_selectable_from(options@, allow, 0) == i && i < options@.len() && (if allow {
                selectable_allow(options@[i as int])
            } else {
                selectable_reject(options@[i as int])
            }),
            None => find_selectable_from(options@, allow, 0) == -1,
        },
{
    let mut i: usize = 0;
    loop
        invariant_except_break
            0 <= i <= options@.len(),
            forall|j: int|
                0 <= j < i ==> !(if allow {
                    selectable_allow(options@[j])
                } else {
                    selectable_reject(options@[j])
                }),
        ensures
            find_selectable_from(options@, allow, 0) >= 0 ==> i < options@.len()
                && find_selectable_from(options@, allow, 0) == i && (if allow {
                selectable_allow(options@[i as int])
            } else {
                selectable_reject(options@[i as int])
            }),
            find_selectable_from(options@, allow, 0) < 0 ==> i == options@.len()
                && find_selectable_from(options@, allow, 0) == -1,
        decreases options@.len() - i,
    {
        if i >= options.len() {
            proof {
                lemma_find_selectable_shift(options@, allow, i as int);
            }
            break;
        }
        let hit = if allow {
            let k = is_allow_kind(&options[i]);
            k && options[i].option_id.is_some()
        } else {
            let k = is_reject_kind(&options[i]);
            k && options[i].option_id.is_some()
        };
        if hit {
            proof {
                lemma_find_selectable_shift(options@, allow, i as int);
            }
            break;
        }
        i = i + 1;
    }
    if i < options.len() {
        Some(i)
    } else {
        None
    }
}

/// The outcome the dispatcher owes for the option list when the decision
/// is to allow (used both for non-interactive mode and for an interactive
/// grant): the first selectable allow option, else the first option's id,
/// else cancellation.
pub open spec fn allow_choice(s: Seq<PermissionOption>) -> Option<Seq<char>> {
    if find_selectable_from(s, true, 0) >= 0 {
        Some(s[find_selectable_from(s, true, 0)].option_id.unwrap()@)
    } else if s.len() > 0 {
        match s[0].option_id {
            Some(id) => Some(id@),
            None => None,
        }
    } else {
        None
    }
}

/// The outcome owed for an interactive denial (explicit deny, timeout, or
/// a dropped decision channel): the first selectable reject option, else
/// cancellation.
pub open spec fn reject_choice(s: Seq<PermissionOption>) -> Option<Seq<char>> {
    if find_selectable_from(s, false, 0) >= 0 {
        Some(s[find_selectable_from(s, false, 0)].option_id.unwrap()@)
    } else {
        None
    }
}

/// Picks the reply for a permission request resolved in favour of the
/// tool call, and for non-interactive mode. `None` means the reply is
/// `cancelled`; `Some(id)` means `selected` with that option id.
pub fn select_allow_option(options: &Vec<PermissionOption>) -> (r: Option<String>)
    ensures
        match r {
            Some(id) => allow_choice(options@) matches Some(c) && id@ == c,
            None => allow_choice(options@) is None,
        },
{
    match find_selectable(options, true) {
        Some(i) => match &options[i].option_id {
            Some(id) => Some(id.clone()),
            None => None,  // unreachable: the found option has an id
        },
        None => {
            if options.len() > 0 {
                match &options[0].option_id {
                    Some(id) => Some(id.clone()),
                    None => None,
                }
            } else {
                None
            }
        },
    }
}

/// Picks the reply for a permission request resolved against the tool
/// call (denied, timed out, or abandoned).
pub fn select_reject_option(options: &Vec<PermissionOption>) -> (r: Option<String>)
    ensures
        match r {
            Some(id) => reject_choice(options@) matches Some(c) && id@ == c,
            None => reject_choice(options@) is None,
        },
{
    match find_selectable(options, false) {
        Some(i) => match &options[i].option_id {
            Some(id) => Some(id.clone()),
            None => None,  // unreachable: the found option has an id
        },
        None => None,
    }
}

/// Picks the reply once an interactive decision is in hand: a grant takes
/// the allow path, everything else takes the reject path.
pub fn select_resolved_option(options: &Vec<PermissionOption>, granted: bool) -> (r: Option<
    String,
>)
    ensures
        granted ==> match r {
            Some(id) => allow_choice(options@) matches Some(c) && id@ == c,
            None => allow_choice(options@) is None,
        },
        !granted ==> match r {
            Some(id) => reject_choice(options@) matches Some(c) && id@ == c,
            None => reject_choice(options@) is None,
        },
{
    if granted {
        select_allow_option(options)
    } else {
        select_reject_option(options)
    }
}

} // verus!
