//! Roster report assembly: stable rating sort, top-six average, and the
//! structured report handed to the message renderer.

use vstd::prelude::*;

use crate::bracket::Team;
use crate::profile::{Player, Role};
use crate::text::{dec_str, u16_to_string};

verus! {

/// How many of the highest-rated players the report averages over.
pub const TOP_GROUP: usize = 6;

/// The largest skill rating a player can carry.
pub const MAX_RATING: u16 = 65535;

/// `x` inserted into `t` directly before the suffix of players rated strictly
/// below `x`. On a sequence sorted by descending rating this keeps it sorted
/// and places `x` after every earlier player with the same rating.
pub open spec fn insert_by_rating_spec(t: Seq<Player>, x: Player) -> Seq<Player>
    decreases t.len(),
{
    if t.len() > 0 && t.last().sr < x.sr {
        insert_by_rating_spec(t.drop_last(), x).push(t.last())
    } else {
        t.push(x)
    }
}

/// Stable sort by descending rating: insertion, front to back, so that equal
/// ratings keep their original relative order.
pub open spec fn sort_by_rating_spec(s: Seq<Player>) -> Seq<Player>
    decreases s.len(),
{
    if s.len() == 0 {
        Seq::empty()
    } else {
        insert_by_rating_spec(sort_by_rating_spec(s.drop_last()), s.last())
    }
}

/// Ratings are non-increasing along the sequence.
pub open spec fn sorted_descending(s: Seq<Player>) -> bool {
    forall|i: int, j: int| 0 <= i <= j < s.len() ==> s[i].sr >= s[j].sr
}

/// The sum of the ratings in `s`.
pub open spec fn sum_ratings(s: Seq<Player>) -> int
    decreases s.len(),
{
    if s.len() == 0 {
        0
    } else {
        sum_ratings(s.drop_last()) + s.last().sr
    }
}

/// The report's average: the floor of the mean rating of the first
/// `TOP_GROUP` players of the (already sorted) sequence, or of all of them if
/// there are fewer; an empty roster has no average.
pub open spec fn top_average_spec(sorted: Seq<Player>) -> Option<u16> {
    if sorted.len() == 0 {
        None
    } else {
        let k = if sorted.len() < TOP_GROUP { sorted.len() as int } else { TOP_GROUP as int };
        Some((sum_ratings(sorted.subrange(0, k)) / k) as u16)
    }
}

/// The profile URL of a team on the bracket provider's site.
pub open spec fn team_url_spec(pid: Seq<char>) -> Seq<char> {
    "https://battlefy.com/teams/"@ + pid
}

/// The enriched roster summary: team header, players sorted by descending
/// rating (stable), and the top-six average rating, absent for an empty
/// roster.
pub struct Report {
    pub team_name: String,
    pub team_url: String,
    pub logo_url: String,
    pub players: Vec<Player>,
    pub top_average: Option<u16>,
}

proof fn lemma_insert_at(t: Seq<Player>, x: Player, p: int)
    requires
        0 <= p <= t.len(),
        forall|k: int| p <= k < t.len() ==> t[k].sr < x.sr,
        p > 0 ==> t[p - 1].sr >= x.sr,
    ensures
        insert_by_rating_spec(t, x) == t.subrange(0, p).push(x) + t.subrange(p, t.len() as int),
    decreases t.len() - p,
{
    if p == t.len() {
        assert(insert_by_rating_spec(t, x) == t.push(x));
        assert(t.push(x) =~= t.subrange(0, p).push(x) + t.subrange(p, t.len() as int));
    } else {
        assert(t.last().sr < x.sr);
        let tdl = t.drop_last();
        lemma_insert_at(tdl, x, p);
        assert(insert_by_rating_spec(t, x) == insert_by_rating_spec(tdl, x).push(t.last()));
        assert((tdl.subrange(0, p).push(x) + tdl.subrange(p, tdl.len() as int)).push(t.last())
            =~= t.subrange(0, p).push(x) + t.subrange(p, t.len() as int));
    }
}

/// Inserts `x` into the descending-sorted `v`, after every player rated at or
/// above `x` and before every player rated strictly below it.
fn insert_by_rating(v: &mut Vec<Player>, x: Player)
    ensures
        final(v)@ == insert_by_rating_spec(old(v)@, x),
{
    let mut p: usize = v.len();
    while p > 0 && v[p - 1].sr < x.sr
        invariant
            v@ == old(v)@,
            0 <= p <= v@.len(),
            forall|k: int| p <= k < v@.len() ==> v@[k].sr < x.sr,
        decreases p,
    {
        p = p - 1;
    }
    proof {
        lemma_insert_at(v@, x, p as int);
    }
    let ghost before = v@;
    v.insert(p, x);
    assert(v@ =~= before.subrange(0, p as int).push(x) + before.subrange(
        p as int,
        before.len() as int,
    ));
}

/// Stable-sorts players by rating, highest first; players with equal ratings
/// keep the order they were handed in.
pub fn sort_by_rating(players: Vec<Player>) -> (r: Vec<Player>)
    ensures
        r@ == sort_by_rating_spec(players@),
{
    let ghost orig = players@;
    let mut src = players;
    let mut out: Vec<Player> = Vec::new();
    while src.len() > 0
        invariant
            src@.len() <= orig.len(),
            src@ =~= orig.subrange(orig.len() - src@.len(), orig.len() as int),
            out@ == sort_by_rating_spec(orig.subrange(0, orig.len() - src@.len())),
        decreases src@.len(),
    {
        let ghost k = orig.len() - src@.len();
        let ghost pre = src@;
        let x = src.remove(0);
        proof {
            assert(x == pre[0]);
            assert(pre[0] == orig.subrange(k as int, orig.len() as int)[0]);
            assert(x == orig[k as int]);
            assert(src@ =~= orig.subrange(k as int + 1, orig.len() as int));
        }
        insert_by_rating(&mut out, x);
        proof {
            let pre = orig.subrange(0, k as int + 1);
            assert(pre.drop_last() =~= orig.subrange(0, k as int));
            assert(pre.last() == orig[k as int]);
        }
    }
    proof {
        assert(orig.subrange(0, orig.len() as int) =~= orig);
    }
    out
}

/// After inserting into a descending-sorted sequence, it is still sorted.
proof fn lemma_insert_sorted(t: Seq<Player>, x: Player)
    requires
        sorted_descending(t),
    ensures
        sorted_descending(insert_by_rating_spec(t, x)),
    decreases t.len(),
{
    if t.len() > 0 && t.last().sr < x.sr {
        assert(sorted_descending(t.drop_last()));
        lemma_insert_sorted(t.drop_last(), x);
        let r = insert_by_rating_spec(t.drop_last(), x);
        assert forall|i: int, j: int|
            0 <= i <= j < r.push(t.last()).len() implies r.push(t.last())[i].sr >= r.push(
            t.last(),
        )[j].sr by {
            if j < r.len() {
            } else {
                // the appended element is rated below x and below every
                // element of the sorted prefix it came after
                if i < r.len() {
                    lemma_insert_members(t.drop_last(), x, i);
                }
            }
        }
    } else {
        let r = t.push(x);
        assert forall|i: int, j: int| 0 <= i <= j < r.len() implies r[i].sr >= r[j].sr by {
            if j < t.len() {
            } else if i < t.len() {
                assert(t[t.len() - 1].sr >= x.sr);
            }
        }
    }
}

/// Every element of an insertion's result is either `x` or an element of `t`
/// rated at least as high as the element that follows it; concretely, each
/// element's rating is at least `x`'s or came from `t`.
proof fn lemma_insert_members(t: Seq<Player>, x: Player, i: int)
    requires
        0 <= i < insert_by_rating_spec(t, x).len(),
    ensures
        insert_by_rating_spec(t, x)[i] == x || t.contains(insert_by_rating_spec(t, x)[i]),
        insert_by_rating_spec(t, x)[i].sr >= x.sr || t.contains(insert_by_rating_spec(t, x)[i]),
    decreases t.len(),
{
    if t.len() > 0 && t.last().sr < x.sr {
        let r = insert_by_rating_spec(t.drop_last(), x);
        if i < r.len() {
            lemma_insert_members(t.drop_last(), x, i);
            if t.drop_last().contains(r[i]) {
                let w = choose|w: int| 0 <= w < t.drop_last().len() && t.drop_last()[w] == r[i];
                assert(t[w] == r[i]);
            }
        } else {
            assert(insert_by_rating_spec(t, x)[i] == t.last());
            assert(t.contains(t.last()));
        }
    } else {
        if i < t.len() {
            assert(t.contains(t[i]));
        }
    }
}

/// The stable sort leaves ratings non-increasing.
pub proof fn lemma_sort_sorted(s: Seq<Player>)
    ensures
        sorted_descending(sort_by_rating_spec(s)),
    decreases s.len(),
{
    if s.len() > 0 {
        lemma_sort_sorted(s.drop_last());
        lemma_insert_sorted(sort_by_rating_spec(s.drop_last()), s.last());
    }
}

/// The stable sort is a permutation: it keeps exactly the players it was
/// given.
pub proof fn lemma_sort_permutes(s: Seq<Player>)
    ensures
        sort_by_rating_spec(s).to_multiset() == s.to_multiset(),
    decreases s.len(),
{
    if s.len() > 0 {
        broadcast use vstd::seq_lib::group_to_multiset_ensures;

        lemma_sort_permutes(s.drop_last());
        lemma_insert_multiset(sort_by_rating_spec(s.drop_last()), s.last());
        let sd = sort_by_rating_spec(s.drop_last());
        assert(sort_by_rating_spec(s).to_multiset() == sd.push(s.last()).to_multiset());
        assert(sd.push(s.last()).to_multiset() =~= sd.to_multiset().insert(s.last()));
        assert(s.drop_last().push(s.last()).to_multiset() =~= s.drop_last().to_multiset().insert(
            s.last(),
        ));
        assert(s.drop_last().push(s.last()) =~= s);
        assert(s.drop_last().push(s.last()).to_multiset() == s.to_multiset());
    } else {
        assert(s =~= Seq::<Player>::empty());
    }
}

proof fn lemma_insert_multiset(t: Seq<Player>, x: Player)
    ensures
        insert_by_rating_spec(t, x).to_multiset() == t.push(x).to_multiset(),
    decreases t.len(),
{
    if t.len() > 0 && t.last().sr < x.sr {
        lemma_insert_multiset(t.drop_last(), x);
        broadcast use vstd::seq_lib::group_to_multiset_ensures;

        assert(insert_by_rating_spec(t, x) == insert_by_rating_spec(t.drop_last(), x).push(
            t.last(),
        ));
        assert(insert_by_rating_spec(t.drop_last(), x).push(t.last()).to_multiset()
            == insert_by_rating_spec(t.drop_last(), x).to_multiset().insert(t.last()));
        assert(t.drop_last().push(x).to_multiset() == t.drop_last().to_multiset().insert(x));
        assert(t.push(x).to_multiset() == t.to_multiset().insert(x));
        assert(t =~= t.drop_last().push(t.last()));
        assert(t.to_multiset() == t.drop_last().to_multiset().insert(t.last()));
    }
}

/// The players with exactly the rating `r`.
pub open spec fn has_rating(r: u16) -> spec_fn(Player) -> bool {
    |p: Player| p.sr == r
}

proof fn lemma_insert_filter(t: Seq<Player>, x: Player, r: u16)
    requires
        sorted_descending(t),
    ensures
        insert_by_rating_spec(t, x).filter(has_rating(r)) == (if x.sr == r {
            t.filter(has_rating(r)).push(x)
        } else {
            t.filter(has_rating(r))
        }),
    decreases t.len(),
{
    reveal(Seq::filter);
    let pr = has_rating(r);
    if t.len() > 0 && t.last().sr < x.sr {
        assert(sorted_descending(t.drop_last()));
        lemma_insert_filter(t.drop_last(), x, r);
        let ins = insert_by_rating_spec(t.drop_last(), x);
        assert(insert_by_rating_spec(t, x) == ins.push(t.last()));
        assert(ins.push(t.last()).drop_last() =~= ins);
        assert(ins.push(t.last()).filter(pr) == (if pr(t.last()) {
            ins.filter(pr).push(t.last())
        } else {
            ins.filter(pr)
        }));
    } else {
        let w = t.push(x);
        assert(w.drop_last() =~= t);
        assert(w.filter(pr) == (if pr(x) {
            t.filter(pr).push(x)
        } else {
            t.filter(pr)
        }));
    }
}

/// Stability of the sort: within any one rating, players come out in
/// exactly the order they went in — the sorted roster restricted to a
/// rating is the given roster restricted to that rating.
pub proof fn lemma_sort_stable(s: Seq<Player>, r: u16)
    ensures
        sort_by_rating_spec(s).filter(has_rating(r)) == s.filter(has_rating(r)),
    decreases s.len(),
{
    reveal(Seq::filter);
    let pr = has_rating(r);
    if s.len() == 0 {
        assert(sort_by_rating_spec(s) =~= s);
    } else {
        lemma_sort_stable(s.drop_last(), r);
        lemma_sort_sorted(s.drop_last());
        lemma_insert_filter(sort_by_rating_spec(s.drop_last()), s.last(), r);
    }
}

/// Sums the ratings of the first `k` players.
fn sum_prefix(players: &Vec<Player>, k: usize) -> (r: u32)
    requires
        k <= players@.len(),
        k <= TOP_GROUP,
    ensures
        r == sum_ratings(players@.subrange(0, k as int)),
        r <= k * (MAX_RATING as int),
{
    let mut sum: u32 = 0;
    let mut i: usize = 0;
    while i < k
        invariant
            0 <= i <= k,
            k <= players@.len(),
            k <= TOP_GROUP,
            sum == sum_ratings(players@.subrange(0, i as int)),
            sum <= i * (MAX_RATING as int),
        decreases k - i,
    {
        let ghost pre = players@.subrange(0, i as int + 1);
        proof {
            assert(pre.drop_last() =~= players@.subrange(0, i as int));
            assert(pre.last() == players@[i as int]);
        }
        sum = sum + players[i].sr as u32;
        i = i + 1;
    }
    sum
}

/// The floor of the mean rating of the leading `TOP_GROUP` players (or all,
/// if fewer) of an already sorted roster; an empty roster yields no average
/// rather than dividing by zero.
pub fn top_average(sorted: &Vec<Player>) -> (r: Option<u16>)
    ensures
        r == top_average_spec(sorted@),
{
    let n = sorted.len();
    if n == 0 {
        return None;
    }
    let k = if n < TOP_GROUP {
        n
    } else {
        TOP_GROUP
    };
    let sum = sum_prefix(sorted, k);
    let avg = sum / (k as u32);
    proof {
        assert(sum <= k * (MAX_RATING as int));
        assert(avg <= MAX_RATING) by (nonlinear_arith)
            requires
                avg == sum as int / k as int,
                sum <= k * (MAX_RATING as int),
                1 <= k,
        ;
    }
    Some(avg as u16)
}

/// Assembles the final report: header fields straight from the team record,
/// the roster stable-sorted by descending rating, and the top-six average.
/// Pure and deterministic in its inputs.
pub fn build_report(team: &Team, rated: Vec<Player>) -> (r: Report)
    ensures
        r.team_name@ == team.persistent_team.name@,
        r.team_url@ == team_url_spec(team.persistent_team_id@),
        r.logo_url@ == team.persistent_team.logo_url@,
        r.players@ == sort_by_rating_spec(rated@),
        r.top_average == top_average_spec(sort_by_rating_spec(rated@)),
{
    let players = sort_by_rating(rated);
    let top_average = top_average(&players);
    Report {
        team_name: String::from_str(team.name()),
        team_url: team_url(team.pid()),
        logo_url: String::from_str(team.logo_url()),
        players,
        top_average,
    }
}

/// The profile URL of the team with persistent identifier `pid`.
pub fn team_url(pid: &str) -> (r: String)
    ensures
        r@ == team_url_spec(pid@),
{
    let base = String::from_str("https://battlefy.com/teams/");
    base.concat(pid)
}

/// The chat icon that renders a role.
pub fn role_icon(role: &Role) -> (r: &'static str)
    ensures
        match *role {
            Role::Unknown => r@ == ":grey_question:"@,
            Role::Tank => r@ == ":shield:"@,
            Role::Offense => r@ == ":crossed_swords:"@,
            Role::Support => r@ == ":ambulance:"@,
            Role::Defense => r@ == ":crossed_swords:"@,
        },
{
    match *role {
        Role::Unknown => ":grey_question:",
        Role::Tank => ":shield:",
        Role::Offense => ":crossed_swords:",
        Role::Support => ":ambulance:",
        Role::Defense => ":crossed_swords:",
    }
}

/// How a rating is shown: the number itself, or a placeholder for the
/// unknown-rating sentinel 0.
pub fn rating_display(sr: u16) -> (r: String)
    ensures
        sr > 0 ==> r@ == dec_str(sr as nat),
        sr == 0 ==> r@ == ":grey_question:"@,
{
    if sr > 0 {
        u16_to_string(sr)
    } else {
        String::from_str(":grey_question:")
    }
}

} // verus!
