//! The wire schema: the JSON shape under which the bracket provider carries
//! player, team and match records.
//!
//! [`player_to_json`], [`team_to_json`] and [`match_to_json`] emit a record
//! in that shape, canonically (fields in the provider's order, no inter-token
//! white space); the matching readers accept exactly a canonical encoding
//! and return the record it denotes. Decoding an encoded record gives the
//! record back — persistent identifiers and roster membership included —
//! whenever every string in it is wire-clean.

use vstd::prelude::*;

use crate::bracket::{Accounts, Battlenet, Match, MatchTeam, PersistentTeam, Player, Team, User};

verus! {

/// A string the wire shape can carry verbatim: one without a quote, the one
/// delimiter of the shape. The shape never emits or interprets escape
/// sequences, so quotes are exactly what it cannot hold.
pub open spec fn clean_str(s: Seq<char>) -> bool {
    forall|i: int| 0 <= i < s.len() ==> s[i] != '"'
}

/// Advances past `lit` at `pos` in `s`, exactly when it stands there.
fn expect_lit(s: &str, pos: usize, lit: &str) -> (r: Option<usize>)
    requires
        pos <= s@.len(),
    ensures
        r matches Some(np) ==> {
            &&& np == pos + lit@.len()
            &&& np <= s@.len()
            &&& s@.subrange(pos as int, np as int) == lit@
        },
        r is None ==> !(pos + lit@.len() <= s@.len() && s@.subrange(
            pos as int,
            pos + lit@.len(),
        ) == lit@),
{
    let slen = s.unicode_len();
    let llen = lit.unicode_len();
    if llen > slen - pos {
        return None;
    }
    let mut k: usize = 0;
    while k < llen
        invariant
            0 <= k <= llen,
            llen == lit@.len(),
            slen == s@.len(),
            pos + llen <= slen,
            forall|j: int| 0 <= j < k ==> s@[pos + j] == lit@[j],
        decreases llen - k,
    {
        if s.get_char(pos + k) != lit.get_char(k) {
            proof {
                assert(s@.subrange(pos as int, pos + llen)[k as int] != lit@[k as int]);
            }
            return None;
        }
        k = k + 1;
    }
    proof {
        assert(s@.subrange(pos as int, pos + llen) =~= lit@);
    }
    Some(pos + llen)
}

/// The canonical wire text of a player record.
pub open spec fn enc_player(p: Player) -> Seq<char> {
    "{\"_id\":\""@ + (p.id@ + ("\",\"persistentPlayerID\":\""@ + (p.pid@ + ("\",\"inGameName\":\""@
        + (p.ign@ + ("\",\"user\":{\"name\":\""@ + (p.user.name@
        + ("\",\"accounts\":{\"battlenet\":{\"battletag\":\""@ + (p.user.accounts.battlenet.battletag@
        + "\"}}}}"@)))))))))
}

/// Every string of a player record is wire-clean.
pub open spec fn clean_player(p: Player) -> bool {
    &&& clean_str(p.id@)
    &&& clean_str(p.pid@)
    &&& clean_str(p.ign@)
    &&& clean_str(p.user.name@)
    &&& clean_str(p.user.accounts.battlenet.battletag@)
}

/// Two player records carry the same data.
pub open spec fn player_data_eq(a: Player, b: Player) -> bool {
    &&& a.id@ == b.id@
    &&& a.pid@ == b.pid@
    &&& a.ign@ == b.ign@
    &&& a.user.name@ == b.user.name@
    &&& a.user.accounts.battlenet.battletag@ == b.user.accounts.battlenet.battletag@
}

/// The wire text of a (wire-clean) player record stands at `pos` in `s`.
pub open spec fn player_encoded_at(s: Seq<char>, pos: int, p: Player) -> bool {
    &&& clean_player(p)
    &&& 0 <= pos
    &&& pos + enc_player(p).len() <= s.len()
    &&& s.subrange(pos, pos + enc_player(p).len()) == enc_player(p)
}

/// Splitting a known concatenation at `a` into its two halves.
proof fn lemma_split_at(s: Seq<char>, a: int, x: Seq<char>, y: Seq<char>)
    requires
        0 <= a,
        a + x.len() + y.len() <= s.len(),
        s.subrange(a, a + x.len() + y.len()) == x + y,
    ensures
        s.subrange(a, a + x.len()) == x,
        s.subrange(a + x.len(), a + x.len() + y.len()) == y,
{
    assert forall|i: int| 0 <= i < x.len() implies s.subrange(a, a + x.len())[i] == x[i] by {
        assert(s.subrange(a, a + x.len() + y.len())[i] == (x + y)[i]);
    }
    assert(s.subrange(a, a + x.len()) =~= x);
    assert forall|i: int| 0 <= i < y.len() implies s.subrange(
        a + x.len(),
        a + x.len() + y.len(),
    )[i] == y[i] by {
        assert(s.subrange(a, a + x.len() + y.len())[x.len() + i] == (x + y)[x.len() + i]);
        assert(s.subrange(a, a + x.len() + y.len())[x.len() + i] == s[a + x.len() + i]);
        assert(s.subrange(a + x.len(), a + x.len() + y.len())[i] == s[a + x.len() + i]);
        assert((x + y)[x.len() + i] == y[i]);
    }
    assert(s.subrange(a + x.len(), a + x.len() + y.len()) =~= y);
}

/// A quote-terminated clean span pins the position of the next quote.
proof fn lemma_quote_pins(s: Seq<char>, b: int, v: Seq<char>, q: int)
    requires
        0 <= b,
        b + v.len() < s.len(),
        s.subrange(b, b + v.len()) == v,
        s[b + v.len()] == '"',
        clean_str(v),
        b <= q < s.len(),
        s[q] == '"',
        forall|k: int| b <= k < q ==> s[k] != '"',
    ensures
        q == b + v.len(),
        s.subrange(b, q) == v,
{
    if q < b + v.len() {
        assert(s.subrange(b, b + v.len())[q - b] == s[q]);
        assert(v[q - b] != '"');
        assert(false);
    }
    if q > b + v.len() {
        assert(s[b + v.len()] != '"');
        assert(false);
    }
}

/// Where each piece of an encoded player record stands, and how long the
/// whole text is.
proof fn lemma_player_shape(s: Seq<char>, pos: int, p: Player)
    requires
        player_encoded_at(s, pos, p),
    ensures
        enc_player(p).len() == 111 + p.id@.len() + p.pid@.len() + p.ign@.len() + p.user.name@.len()
            + p.user.accounts.battlenet.battletag@.len(),
        s.subrange(pos, pos + 8) == "{\"_id\":\""@,
        s.subrange(pos + 8, pos + 8 + p.id@.len()) == p.id@,
        s[pos + 8 + p.id@.len()] == '"',
        s.subrange(pos + 8 + p.id@.len(), pos + 32 + p.id@.len())
            == "\",\"persistentPlayerID\":\""@,
        s.subrange(pos + 32 + p.id@.len(), pos + 32 + p.id@.len() + p.pid@.len()) == p.pid@,
        s[pos + 32 + p.id@.len() + p.pid@.len()] == '"',
        s.subrange(
            pos + 32 + p.id@.len() + p.pid@.len(),
            pos + 48 + p.id@.len() + p.pid@.len(),
        ) == "\",\"inGameName\":\""@,
        s.subrange(
            pos + 48 + p.id@.len() + p.pid@.len(),
            pos + 48 + p.id@.len() + p.pid@.len() + p.ign@.len(),
        ) == p.ign@,
        s[pos + 48 + p.id@.len() + p.pid@.len() + p.ign@.len()] == '"',
        s.subrange(
            pos + 48 + p.id@.len() + p.pid@.len() + p.ign@.len(),
            pos + 66 + p.id@.len() + p.pid@.len() + p.ign@.len(),
        ) == "\",\"user\":{\"name\":\""@,
        s.subrange(
            pos + 66 + p.id@.len() + p.pid@.len() + p.ign@.len(),
            pos + 66 + p.id@.len() + p.pid@.len() + p.ign@.len() + p.user.name@.len(),
        ) == p.user.name@,
        s[pos + 66 + p.id@.len() + p.pid@.len() + p.ign@.len() + p.user.name@.len()] == '"',
        s.subrange(
            pos + 66 + p.id@.len() + p.pid@.len() + p.ign@.len() + p.user.name@.len(),
            pos + 106 + p.id@.len() + p.pid@.len() + p.ign@.len() + p.user.name@.len(),
        ) == "\",\"accounts\":{\"battlenet\":{\"battletag\":\""@,
        s.subrange(
            pos + 106 + p.id@.len() + p.pid@.len() + p.ign@.len() + p.user.name@.len(),
            pos + 106 + p.id@.len() + p.pid@.len() + p.ign@.len() + p.user.name@.len()
                + p.user.accounts.battlenet.battletag@.len(),
        ) == p.user.accounts.battlenet.battletag@,
        s[pos + 106 + p.id@.len() + p.pid@.len() + p.ign@.len() + p.user.name@.len()
            + p.user.accounts.battlenet.battletag@.len()] == '"',
        s.subrange(
            pos + 106 + p.id@.len() + p.pid@.len() + p.ign@.len() + p.user.name@.len()
                + p.user.accounts.battlenet.battletag@.len(),
            pos + 111 + p.id@.len() + p.pid@.len() + p.ign@.len() + p.user.name@.len()
                + p.user.accounts.battlenet.battletag@.len(),
        ) == "\"}}}}"@,
{
    reveal_strlit("{\"_id\":\"");
    reveal_strlit("\",\"persistentPlayerID\":\"");
    reveal_strlit("\",\"inGameName\":\"");
    reveal_strlit("\",\"user\":{\"name\":\"");
    reveal_strlit("\",\"accounts\":{\"battlenet\":{\"battletag\":\"");
    reveal_strlit("\"}}}}");
    let l1 = "{\"_id\":\""@;
    let l2 = "\",\"persistentPlayerID\":\""@;
    let l3 = "\",\"inGameName\":\""@;
    let l4 = "\",\"user\":{\"name\":\""@;
    let l5 = "\",\"accounts\":{\"battlenet\":{\"battletag\":\""@;
    let l6 = "\"}}}}"@;
    let v1 = p.id@;
    let v2 = p.pid@;
    let v3 = p.ign@;
    let v4 = p.user.name@;
    let v5 = p.user.accounts.battlenet.battletag@;
    let r1 = v1 + (l2 + (v2 + (l3 + (v3 + (l4 + (v4 + (l5 + (v5 + l6))))))));
    let r2 = l2 + (v2 + (l3 + (v3 + (l4 + (v4 + (l5 + (v5 + l6)))))));
    let r3 = v2 + (l3 + (v3 + (l4 + (v4 + (l5 + (v5 + l6))))));
    let r4 = l3 + (v3 + (l4 + (v4 + (l5 + (v5 + l6)))));
    let r5 = v3 + (l4 + (v4 + (l5 + (v5 + l6))));
    let r6 = l4 + (v4 + (l5 + (v5 + l6)));
    let r7 = v4 + (l5 + (v5 + l6));
    let r8 = l5 + (v5 + l6);
    let r9 = v5 + l6;
    lemma_split_at(s, pos, l1, r1);
    lemma_split_at(s, pos + 8, v1, r2);
    lemma_split_at(s, pos + 8 + v1.len(), l2, r3);
    lemma_split_at(s, pos + 32 + v1.len(), v2, r4);
    lemma_split_at(s, pos + 32 + v1.len() + v2.len(), l3, r5);
    lemma_split_at(s, pos + 48 + v1.len() + v2.len(), v3, r6);
    lemma_split_at(s, pos + 48 + v1.len() + v2.len() + v3.len(), l4, r7);
    lemma_split_at(s, pos + 66 + v1.len() + v2.len() + v3.len(), v4, r8);
    lemma_split_at(s, pos + 66 + v1.len() + v2.len() + v3.len() + v4.len(), l5, r9);
    lemma_split_at(s, pos + 106 + v1.len() + v2.len() + v3.len() + v4.len(), v5, l6);
    assert(s[pos + 8 + v1.len()] == s.subrange(pos + 8 + v1.len(), pos + 32 + v1.len())[0]);
    assert(s[pos + 32 + v1.len() + v2.len()] == s.subrange(
        pos + 32 + v1.len() + v2.len(),
        pos + 48 + v1.len() + v2.len(),
    )[0]);
    assert(s[pos + 48 + v1.len() + v2.len() + v3.len()] == s.subrange(
        pos + 48 + v1.len() + v2.len() + v3.len(),
        pos + 66 + v1.len() + v2.len() + v3.len(),
    )[0]);
    assert(s[pos + 66 + v1.len() + v2.len() + v3.len() + v4.len()] == s.subrange(
        pos + 66 + v1.len() + v2.len() + v3.len() + v4.len(),
        pos + 106 + v1.len() + v2.len() + v3.len() + v4.len(),
    )[0]);
    assert(s[pos + 106 + v1.len() + v2.len() + v3.len() + v4.len() + v5.len()] == s.subrange(
        pos + 106 + v1.len() + v2.len() + v3.len() + v4.len() + v5.len(),
        pos + 111 + v1.len() + v2.len() + v3.len() + v4.len() + v5.len(),
    )[0]);
}

/// The converse of [`lemma_player_shape`]: pieces standing in their places
/// assemble into one encoded player record.
#[verifier::rlimit(100)]
proof fn lemma_player_assemble(s: Seq<char>, pos: int, q: Player)
    requires
        0 <= pos,
        pos + 111 + q.id@.len() + q.pid@.len() + q.ign@.len() + q.user.name@.len()
            + q.user.accounts.battlenet.battletag@.len() <= s.len(),
        s.subrange(pos, pos + 8) == "{\"_id\":\""@,
        s.subrange(pos + 8, pos + 8 + q.id@.len()) == q.id@,
        s.subrange(pos + 8 + q.id@.len(), pos + 32 + q.id@.len())
            == "\",\"persistentPlayerID\":\""@,
        s.subrange(pos + 32 + q.id@.len(), pos + 32 + q.id@.len() + q.pid@.len()) == q.pid@,
        s.subrange(
            pos + 32 + q.id@.len() + q.pid@.len(),
            pos + 48 + q.id@.len() + q.pid@.len(),
        ) == "\",\"inGameName\":\""@,
        s.subrange(
            pos + 48 + q.id@.len() + q.pid@.len(),
            pos + 48 + q.id@.len() + q.pid@.len() + q.ign@.len(),
        ) == q.ign@,
        s.subrange(
            pos + 48 + q.id@.len() + q.pid@.len() + q.ign@.len(),
            pos + 66 + q.id@.len() + q.pid@.len() + q.ign@.len(),
        ) == "\",\"user\":{\"name\":\""@,
        s.subrange(
            pos + 66 + q.id@.len() + q.pid@.len() + q.ign@.len(),
            pos + 66 + q.id@.len() + q.pid@.len() + q.ign@.len() + q.user.name@.len(),
        ) == q.user.name@,
        s.subrange(
            pos + 66 + q.id@.len() + q.pid@.len() + q.ign@.len() + q.user.name@.len(),
            pos + 106 + q.id@.len() + q.pid@.len() + q.ign@.len() + q.user.name@.len(),
        ) == "\",\"accounts\":{\"battlenet\":{\"battletag\":\""@,
        s.subrange(
            pos + 106 + q.id@.len() + q.pid@.len() + q.ign@.len() + q.user.name@.len(),
            pos + 106 + q.id@.len() + q.pid@.len() + q.ign@.len() + q.user.name@.len()
                + q.user.accounts.battlenet.battletag@.len(),
        ) == q.user.accounts.battlenet.battletag@,
        s.subrange(
            pos + 106 + q.id@.len() + q.pid@.len() + q.ign@.len() + q.user.name@.len()
                + q.user.accounts.battlenet.battletag@.len(),
            pos + 111 + q.id@.len() + q.pid@.len() + q.ign@.len() + q.user.name@.len()
                + q.user.accounts.battlenet.battletag@.len(),
        ) == "\"}}}}"@,
    ensures
        enc_player(q).len() == 111 + q.id@.len() + q.pid@.len() + q.ign@.len() + q.user.name@.len()
            + q.user.accounts.battlenet.battletag@.len(),
        s.subrange(
            pos,
            pos + 111 + q.id@.len() + q.pid@.len() + q.ign@.len() + q.user.name@.len()
                + q.user.accounts.battlenet.battletag@.len(),
        ) == enc_player(q),
{
    reveal_strlit("{\"_id\":\"");
    reveal_strlit("\",\"persistentPlayerID\":\"");
    reveal_strlit("\",\"inGameName\":\"");
    reveal_strlit("\",\"user\":{\"name\":\"");
    reveal_strlit("\",\"accounts\":{\"battlenet\":{\"battletag\":\"");
    reveal_strlit("\"}}}}");
    let b1 = pos + 8;
    let q1 = b1 + q.id@.len();
    let b2 = q1 + 24;
    let q2 = b2 + q.pid@.len();
    let b3 = q2 + 16;
    let q3 = b3 + q.ign@.len();
    let b4 = q3 + 18;
    let q4 = b4 + q.user.name@.len();
    let b5 = q4 + 40;
    let q5 = b5 + q.user.accounts.battlenet.battletag@.len();
    let np = q5 + 5;
    assert(s.subrange(b5, np) =~= q.user.accounts.battlenet.battletag@ + "\"}}}}"@);
    assert(s.subrange(q4, np) =~= "\",\"accounts\":{\"battlenet\":{\"battletag\":\""@ + (
    q.user.accounts.battlenet.battletag@ + "\"}}}}"@));
    assert(s.subrange(b4, np) =~= q.user.name@ + ("\",\"accounts\":{\"battlenet\":{\"battletag\":\""@
        + (q.user.accounts.battlenet.battletag@ + "\"}}}}"@)));
    assert(s.subrange(q3, np) =~= "\",\"user\":{\"name\":\""@ + (q.user.name@ + (
    "\",\"accounts\":{\"battlenet\":{\"battletag\":\""@ + (q.user.accounts.battlenet.battletag@
        + "\"}}}}"@))));
    assert(s.subrange(b3, np) =~= q.ign@ + ("\",\"user\":{\"name\":\""@ + (q.user.name@ + (
    "\",\"accounts\":{\"battlenet\":{\"battletag\":\""@ + (q.user.accounts.battlenet.battletag@
        + "\"}}}}"@)))));
    assert(s.subrange(q2, np) =~= "\",\"inGameName\":\""@ + (q.ign@ + ("\",\"user\":{\"name\":\""@ + (
    q.user.name@ + ("\",\"accounts\":{\"battlenet\":{\"battletag\":\""@ + (
    q.user.accounts.battlenet.battletag@ + "\"}}}}"@))))));
    assert(s.subrange(b2, np) =~= q.pid@ + ("\",\"inGameName\":\""@ + (q.ign@ + (
    "\",\"user\":{\"name\":\""@ + (q.user.name@ + ("\",\"accounts\":{\"battlenet\":{\"battletag\":\""@
        + (q.user.accounts.battlenet.battletag@ + "\"}}}}"@)))))));
    assert(s.subrange(q1, np) =~= "\",\"persistentPlayerID\":\""@ + (q.pid@ + (
    "\",\"inGameName\":\""@ + (q.ign@ + ("\",\"user\":{\"name\":\""@ + (q.user.name@ + (
    "\",\"accounts\":{\"battlenet\":{\"battletag\":\""@ + (q.user.accounts.battlenet.battletag@
        + "\"}}}}"@))))))));
    assert(s.subrange(b1, np) =~= q.id@ + ("\",\"persistentPlayerID\":\""@ + (q.pid@ + (
    "\",\"inGameName\":\""@ + (q.ign@ + ("\",\"user\":{\"name\":\""@ + (q.user.name@ + (
    "\",\"accounts\":{\"battlenet\":{\"battletag\":\""@ + (q.user.accounts.battlenet.battletag@
        + "\"}}}}"@)))))))));
    assert(s.subrange(pos, np) =~= "{\"_id\":\""@ + (q.id@ + ("\",\"persistentPlayerID\":\""@ + (
    q.pid@ + ("\",\"inGameName\":\""@ + (q.ign@ + ("\",\"user\":{\"name\":\""@ + (q.user.name@ + (
    "\",\"accounts\":{\"battlenet\":{\"battletag\":\""@ + (q.user.accounts.battlenet.battletag@
        + "\"}}}}"@))))))))));
}

/// Emits the canonical wire text of a player record.
pub fn player_to_json(p: &Player) -> (r: String)
    ensures
        r@ == enc_player(*p),
{
    let mut out = String::from_str("{\"_id\":\"");
    out.append(p.id.as_str());
    out.append("\",\"persistentPlayerID\":\"");
    out.append(p.pid.as_str());
    out.append("\",\"inGameName\":\"");
    out.append(p.ign.as_str());
    out.append("\",\"user\":{\"name\":\"");
    out.append(p.user.name.as_str());
    out.append("\",\"accounts\":{\"battlenet\":{\"battletag\":\"");
    out.append(p.user.accounts.battlenet.battletag.as_str());
    out.append("\"}}}}");
    proof {
        assert(out@ =~= enc_player(*p));
    }
    out
}

/// Reads from `pos` up to the next quote: yields the quote-free text before
/// it and the quote's position, exactly when a quote follows.
fn read_to_quote(s: &str, pos: usize) -> (r: Option<(String, usize)>)
    requires
        pos <= s@.len(),
    ensures
        r matches Some(t) ==> {
            &&& pos <= t.1 < s@.len()
            &&& s@[t.1 as int] == '"'
            &&& t.0@ == s@.subrange(pos as int, t.1 as int)
            &&& forall|k: int| pos <= k < t.1 ==> s@[k] != '"'
        },
        r is None ==> forall|k: int| pos <= k < s@.len() ==> s@[k] != '"',
{
    let slen = s.unicode_len();
    let mut i: usize = pos;
    while i < slen
        invariant
            pos <= i <= slen,
            slen == s@.len(),
            forall|k: int| pos <= k < i ==> s@[k] != '"',
        decreases slen - i,
    {
        if s.get_char(i) == '"' {
            let t = String::from_str(s.substring_char(pos, i));
            return Some((t, i));
        }
        i = i + 1;
    }
    None
}

/// Reads one canonically encoded player record starting at `pos`. When the
/// wire text of any wire-clean player stands there, the read succeeds and
/// returns a record carrying the same data; whatever is returned re-encodes
/// to exactly the span that was read.
#[verifier::rlimit(100)]
pub fn player_from_json_at(s: &str, pos: usize) -> (r: Option<(Player, usize)>)
    requires
        pos <= s@.len(),
    ensures
        forall|p: Player|
            player_encoded_at(s@, pos as int, p) ==> (r matches Some(t) && player_data_eq(t.0, p)
                && t.1 == pos + enc_player(p).len()),
        r matches Some(t) ==> {
            &&& pos < t.1 <= s@.len()
            &&& clean_player(t.0)
            &&& s@.subrange(pos as int, t.1 as int) == enc_player(t.0)
        },
{
    let pos1 = match expect_lit(s, pos, "{\"_id\":\"") {
        Some(v) => v,
        None => {
            proof {
                assert forall|p: Player| !player_encoded_at(s@, pos as int, p) by {
                    if player_encoded_at(s@, pos as int, p) {
                        lemma_player_shape(s@, pos as int, p);
                        reveal_strlit("{\"_id\":\"");
                    }
                }
            }
            return None;
        },
    };
    proof {
        reveal_strlit("{\"_id\":\"");
    }
    let (t1, q1) = match read_to_quote(s, pos1) {
        Some(v) => v,
        None => {
            proof {
                assert forall|p: Player| !player_encoded_at(s@, pos as int, p) by {
                    if player_encoded_at(s@, pos as int, p) {
                        lemma_player_shape(s@, pos as int, p);
                    }
                }
            }
            return None;
        },
    };
    let pos2 = match expect_lit(s, q1, "\",\"persistentPlayerID\":\"") {
        Some(v) => v,
        None => {
            proof {
                assert forall|p: Player| !player_encoded_at(s@, pos as int, p) by {
                    if player_encoded_at(s@, pos as int, p) {
                        lemma_player_shape(s@, pos as int, p);
                        lemma_quote_pins(s@, pos as int + 8, p.id@, q1 as int);
                        reveal_strlit("\",\"persistentPlayerID\":\"");
                    }
                }
            }
            return None;
        },
    };
    proof {
        reveal_strlit("\",\"persistentPlayerID\":\"");
    }
    let (t2, q2) = match read_to_quote(s, pos2) {
        Some(v) => v,
        None => {
            proof {
                assert forall|p: Player| !player_encoded_at(s@, pos as int, p) by {
                    if player_encoded_at(s@, pos as int, p) {
                        lemma_player_shape(s@, pos as int, p);
                        lemma_quote_pins(s@, pos as int + 8, p.id@, q1 as int);
                    }
                }
            }
            return None;
        },
    };
    let pos3 = match expect_lit(s, q2, "\",\"inGameName\":\"") {
        Some(v) => v,
        None => {
            proof {
                assert forall|p: Player| !player_encoded_at(s@, pos as int, p) by {
                    if player_encoded_at(s@, pos as int, p) {
                        lemma_player_shape(s@, pos as int, p);
                        lemma_quote_pins(s@, pos as int + 8, p.id@, q1 as int);
                        lemma_quote_pins(s@, pos as int + 32 + p.id@.len(), p.pid@, q2 as int);
                        reveal_strlit("\",\"inGameName\":\"");
                    }
                }
            }
            return None;
        },
    };
    proof {
        reveal_strlit("\",\"inGameName\":\"");
    }
    let (t3, q3) = match read_to_quote(s, pos3) {
        Some(v) => v,
        None => {
            proof {
                assert forall|p: Player| !player_encoded_at(s@, pos as int, p) by {
                    if player_encoded_at(s@, pos as int, p) {
                        lemma_player_shape(s@, pos as int, p);
                        lemma_quote_pins(s@, pos as int + 8, p.id@, q1 as int);
                        lemma_quote_pins(s@, pos as int + 32 + p.id@.len(), p.pid@, q2 as int);
                    }
                }
            }
            return None;
        },
    };
    let pos4 = match expect_lit(s, q3, "\",\"user\":{\"name\":\"") {
        Some(v) => v,
        None => {
            proof {
                assert forall|p: Player| !player_encoded_at(s@, pos as int, p) by {
                    if player_encoded_at(s@, pos as int, p) {
                        lemma_player_shape(s@, pos as int, p);
                        lemma_quote_pins(s@, pos as int + 8, p.id@, q1 as int);
                        lemma_quote_pins(s@, pos as int + 32 + p.id@.len(), p.pid@, q2 as int);
                        lemma_quote_pins(
                            s@,
                            pos as int + 48 + p.id@.len() + p.pid@.len(),
                            p.ign@,
                            q3 as int,
                        );
                        reveal_strlit("\",\"user\":{\"name\":\"");
                    }
                }
            }
            return None;
        },
    };
    proof {
        reveal_strlit("\",\"user\":{\"name\":\"");
    }
    let (t4, q4) = match read_to_quote(s, pos4) {
        Some(v) => v,
        None => {
            proof {
                assert forall|p: Player| !player_encoded_at(s@, pos as int, p) by {
                    if player_encoded_at(s@, pos as int, p) {
                        lemma_player_shape(s@, pos as int, p);
                        lemma_quote_pins(s@, pos as int + 8, p.id@, q1 as int);
                        lemma_quote_pins(s@, pos as int + 32 + p.id@.len(), p.pid@, q2 as int);
                        lemma_quote_pins(
                            s@,
                            pos as int + 48 + p.id@.len() + p.pid@.len(),
                            p.ign@,
                            q3 as int,
                        );
                    }
                }
            }
            return None;
        },
    };
    let pos5 = match expect_lit(s, q4, "\",\"accounts\":{\"battlenet\":{\"battletag\":\"") {
        Some(v) => v,
        None => {
            proof {
                assert forall|p: Player| !player_encoded_at(s@, pos as int, p) by {
                    if player_encoded_at(s@, pos as int, p) {
                        lemma_player_shape(s@, pos as int, p);
                        lemma_quote_pins(s@, pos as int + 8, p.id@, q1 as int);
                        lemma_quote_pins(s@, pos as int + 32 + p.id@.len(), p.pid@, q2 as int);
                        lemma_quote_pins(
                            s@,
                            pos as int + 48 + p.id@.len() + p.pid@.len(),
                            p.ign@,
                            q3 as int,
                        );
                        lemma_quote_pins(
                            s@,
                            pos as int + 66 + p.id@.len() + p.pid@.len() + p.ign@.len(),
                            p.user.name@,
                            q4 as int,
                        );
                        reveal_strlit("\",\"accounts\":{\"battlenet\":{\"battletag\":\"");
                    }
                }
            }
            return None;
        },
    };
    proof {
        reveal_strlit("\",\"accounts\":{\"battlenet\":{\"battletag\":\"");
    }
    let (t5, q5) = match read_to_quote(s, pos5) {
        Some(v) => v,
        None => {
            proof {
                assert forall|p: Player| !player_encoded_at(s@, pos as int, p) by {
                    if player_encoded_at(s@, pos as int, p) {
                        lemma_player_shape(s@, pos as int, p);
                        lemma_quote_pins(s@, pos as int + 8, p.id@, q1 as int);
                        lemma_quote_pins(s@, pos as int + 32 + p.id@.len(), p.pid@, q2 as int);
                        lemma_quote_pins(
                            s@,
                            pos as int + 48 + p.id@.len() + p.pid@.len(),
                            p.ign@,
                            q3 as int,
                        );
                        lemma_quote_pins(
                            s@,
                            pos as int + 66 + p.id@.len() + p.pid@.len() + p.ign@.len(),
                            p.user.name@,
                            q4 as int,
                        );
                    }
                }
            }
            return None;
        },
    };
    let np = match expect_lit(s, q5, "\"}}}}") {
        Some(v) => v,
        None => {
            proof {
                assert forall|p: Player| !player_encoded_at(s@, pos as int, p) by {
                    if player_encoded_at(s@, pos as int, p) {
                        lemma_player_shape(s@, pos as int, p);
                        lemma_quote_pins(s@, pos as int + 8, p.id@, q1 as int);
                        lemma_quote_pins(s@, pos as int + 32 + p.id@.len(), p.pid@, q2 as int);
                        lemma_quote_pins(
                            s@,
                            pos as int + 48 + p.id@.len() + p.pid@.len(),
                            p.ign@,
                            q3 as int,
                        );
                        lemma_quote_pins(
                            s@,
                            pos as int + 66 + p.id@.len() + p.pid@.len() + p.ign@.len(),
                            p.user.name@,
                            q4 as int,
                        );
                        lemma_quote_pins(
                            s@,
                            pos as int + 106 + p.id@.len() + p.pid@.len() + p.ign@.len()
                                + p.user.name@.len(),
                            p.user.accounts.battlenet.battletag@,
                            q5 as int,
                        );
                        reveal_strlit("\"}}}}");
                    }
                }
            }
            return None;
        },
    };
    proof {
        reveal_strlit("\"}}}}");
    }
    let q = Player {
        id: t1,
        pid: t2,
        ign: t3,
        user: User {
            name: t4,
            accounts: Accounts { battlenet: Battlenet { battletag: t5 } },
        },
    };
    proof {
        // completeness: every record whose wire text stands here carries
        // exactly the data that was read
        assert forall|p: Player|
            player_encoded_at(s@, pos as int, p) implies (player_data_eq(q, p) && np == pos
            + enc_player(p).len()) by {
            lemma_player_shape(s@, pos as int, p);
            lemma_quote_pins(s@, pos as int + 8, p.id@, q1 as int);
            lemma_quote_pins(s@, pos as int + 32 + p.id@.len(), p.pid@, q2 as int);
            lemma_quote_pins(
                s@,
                pos as int + 48 + p.id@.len() + p.pid@.len(),
                p.ign@,
                q3 as int,
            );
            lemma_quote_pins(
                s@,
                pos as int + 66 + p.id@.len() + p.pid@.len() + p.ign@.len(),
                p.user.name@,
                q4 as int,
            );
            lemma_quote_pins(
                s@,
                pos as int + 106 + p.id@.len() + p.pid@.len() + p.ign@.len() + p.user.name@.len(),
                p.user.accounts.battlenet.battletag@,
                q5 as int,
            );
        }
        // what was read holds no quote, so the record is wire-clean
        assert forall|i: int| 0 <= i < t1@.len() implies t1@[i] != '"' by {
            assert(t1@[i] == s@.subrange(pos1 as int, q1 as int)[i]);
        }
        assert forall|i: int| 0 <= i < t2@.len() implies t2@[i] != '"' by {
            assert(t2@[i] == s@.subrange(pos2 as int, q2 as int)[i]);
        }
        assert forall|i: int| 0 <= i < t3@.len() implies t3@[i] != '"' by {
            assert(t3@[i] == s@.subrange(pos3 as int, q3 as int)[i]);
        }
        assert forall|i: int| 0 <= i < t4@.len() implies t4@[i] != '"' by {
            assert(t4@[i] == s@.subrange(pos4 as int, q4 as int)[i]);
        }
        assert forall|i: int| 0 <= i < t5@.len() implies t5@[i] != '"' by {
            assert(t5@[i] == s@.subrange(pos5 as int, q5 as int)[i]);
        }
        // soundness: the span that was read is the wire text of what came out
        assert(q1 == pos as int + 8 + t1@.len());
        assert(q2 == pos as int + 32 + t1@.len() + t2@.len());
        assert(q3 == pos as int + 48 + t1@.len() + t2@.len() + t3@.len());
        assert(q4 == pos as int + 66 + t1@.len() + t2@.len() + t3@.len() + t4@.len());
        assert(q5 == pos as int + 106 + t1@.len() + t2@.len() + t3@.len() + t4@.len()
            + t5@.len());
        lemma_player_assemble(s@, pos as int, q);
        assert(s@.subrange(pos as int, np as int) == enc_player(q));
    }
    Some((q, np))
}

/// The view of each identifier in a roster's identifier list.
pub open spec fn id_views(ids: Seq<String>) -> Seq<Seq<char>> {
    ids.map_values(|x: String| x@)
}

/// The canonical wire text of a list of identifier strings, without its
/// surrounding brackets: quoted, comma-separated.
pub open spec fn enc_id_list(vs: Seq<Seq<char>>) -> Seq<char>
    decreases vs.len(),
{
    if vs.len() == 0 {
        Seq::empty()
    } else {
        seq!['"'] + (vs[0] + (seq!['"'] + (if vs.len() == 1 {
            Seq::<char>::empty()
        } else {
            seq![','] + enc_id_list(vs.drop_first())
        })))
    }
}

/// The canonical wire text of a list of player records, without its
/// surrounding brackets: comma-separated.
pub open spec fn enc_player_list(ps: Seq<Player>) -> Seq<char>
    decreases ps.len(),
{
    if ps.len() == 0 {
        Seq::empty()
    } else {
        enc_player(ps[0]) + (if ps.len() == 1 {
            Seq::<char>::empty()
        } else {
            seq![','] + enc_player_list(ps.drop_first())
        })
    }
}

/// The canonical wire text of a team record.
pub open spec fn enc_team(t: Team) -> Seq<char> {
    "{\"_id\":\""@ + (t.id@ + ("\",\"persistentTeamID\":\""@ + (t.persistent_team_id@
        + ("\",\"persistentTeam\":{\"name\":\""@ + (t.persistent_team.name@ + ("\",\"logoUrl\":\""@
        + (t.persistent_team.logo_url@ + ("\",\"persistentPlayerIDs\":["@
        + (enc_id_list(id_views(t.persistent_team.persistent_player_ids@))
        + ("],\"persistentCaptainID\":\""@ + (t.persistent_team.persistent_captain_id@
        + ("\",\"players\":["@ + (enc_player_list(t.players@) + "]}"@)))))))))))))
}

/// Every string of a team record is wire-clean.
pub open spec fn clean_team(t: Team) -> bool {
    &&& clean_str(t.id@)
    &&& clean_str(t.persistent_team_id@)
    &&& clean_str(t.persistent_team.name@)
    &&& clean_str(t.persistent_team.logo_url@)
    &&& clean_str(t.persistent_team.persistent_captain_id@)
    &&& forall|i: int|
        0 <= i < t.persistent_team.persistent_player_ids@.len() ==> clean_str(
            #[trigger] t.persistent_team.persistent_player_ids@[i]@,
        )
    &&& forall|i: int| 0 <= i < t.players@.len() ==> clean_player(#[trigger] t.players@[i])
}

/// Two team records carry the same data: identifiers, header fields, the
/// identifier list, and the roster, member for member.
pub open spec fn team_data_eq(a: Team, b: Team) -> bool {
    &&& a.id@ == b.id@
    &&& a.persistent_team_id@ == b.persistent_team_id@
    &&& a.persistent_team.name@ == b.persistent_team.name@
    &&& a.persistent_team.logo_url@ == b.persistent_team.logo_url@
    &&& a.persistent_team.persistent_captain_id@ == b.persistent_team.persistent_captain_id@
    &&& id_views(a.persistent_team.persistent_player_ids@) == id_views(
        b.persistent_team.persistent_player_ids@,
    )
    &&& a.players@.len() == b.players@.len()
    &&& forall|i: int|
        0 <= i < a.players@.len() ==> player_data_eq(
            #[trigger] a.players@[i],
            #[trigger] b.players@[i],
        )
}

/// The canonical wire text of a match record. The transient side flag is
/// not part of the wire shape.
pub open spec fn enc_match(m: Match) -> Seq<char> {
    "{\"_id\":\""@ + (m.id@ + ("\",\"top\":{\"team\":"@ + (enc_team(m.top.team)
        + ("},\"bottom\":{\"team\":"@ + (enc_team(m.bottom.team) + "}}"@)))))
}

/// Every string of a match record is wire-clean.
pub open spec fn clean_match(m: Match) -> bool {
    &&& clean_str(m.id@)
    &&& clean_team(m.top.team)
    &&& clean_team(m.bottom.team)
}

/// Two match records carry the same data in their two slots; the transient
/// side flag is not compared.
pub open spec fn match_data_eq(a: Match, b: Match) -> bool {
    &&& a.id@ == b.id@
    &&& team_data_eq(a.top.team, b.top.team)
    &&& team_data_eq(a.bottom.team, b.bottom.team)
}

/// Concatenation of character sequences is associative.
proof fn lemma_add_assoc(a: Seq<char>, b: Seq<char>, c: Seq<char>)
    ensures
        (a + b) + c == a + (b + c),
{
    assert((a + b) + c =~= a + (b + c));
}

/// Appends the wire text of the identifiers from `from` on.
fn append_id_list(out: &mut String, ids: &Vec<String>, from: usize)
    requires
        from <= ids@.len(),
    ensures
        final(out)@ == old(out)@ + enc_id_list(id_views(ids@.skip(from as int))),
    decreases ids@.len() - from,
{
    if from < ids.len() {
        out.append("\"");
        out.append(ids[from].as_str());
        out.append("\"");
        if from + 1 < ids.len() {
            out.append(",");
            append_id_list(out, ids, from + 1);
        }
        proof {
            reveal_strlit("\"");
            reveal_strlit(",");
            let vs = id_views(ids@.skip(from as int));
            assert(vs[0] == ids@[from as int]@);
            assert(vs.drop_first() =~= id_views(ids@.skip(from as int + 1)));
            assert(out@ =~= old(out)@ + enc_id_list(vs));
        }
    } else {
        proof {
            assert(ids@.skip(from as int) =~= Seq::<String>::empty());
            assert(out@ =~= old(out)@ + enc_id_list(id_views(ids@.skip(from as int))));
        }
    }
}

/// Appends the wire text of the players from `from` on.
fn append_player_list(out: &mut String, ps: &Vec<Player>, from: usize)
    requires
        from <= ps@.len(),
    ensures
        final(out)@ == old(out)@ + enc_player_list(ps@.skip(from as int)),
    decreases ps@.len() - from,
{
    if from < ps.len() {
        let one = player_to_json(&ps[from]);
        out.append(one.as_str());
        if from + 1 < ps.len() {
            out.append(",");
            append_player_list(out, ps, from + 1);
        }
        proof {
            reveal_strlit(",");
            let vs = ps@.skip(from as int);
            assert(vs[0] == ps@[from as int]);
            assert(vs.drop_first() =~= ps@.skip(from as int + 1));
            assert(out@ =~= old(out)@ + enc_player_list(vs));
        }
    } else {
        proof {
            assert(ps@.skip(from as int) =~= Seq::<Player>::empty());
            assert(out@ =~= old(out)@ + enc_player_list(ps@.skip(from as int)));
        }
    }
}

/// Emits the canonical wire text of a team record.
#[verifier::rlimit(100)]
pub fn team_to_json(t: &Team) -> (r: String)
    ensures
        r@ == enc_team(*t),
{
    let mut out = String::from_str("{\"_id\":\"");
    out.append(t.id.as_str());
    out.append("\",\"persistentTeamID\":\"");
    out.append(t.persistent_team_id.as_str());
    out.append("\",\"persistentTeam\":{\"name\":\"");
    out.append(t.persistent_team.name.as_str());
    out.append("\",\"logoUrl\":\"");
    out.append(t.persistent_team.logo_url.as_str());
    out.append("\",\"persistentPlayerIDs\":[");
    append_id_list(&mut out, &t.persistent_team.persistent_player_ids, 0);
    out.append("],\"persistentCaptainID\":\"");
    out.append(t.persistent_team.persistent_captain_id.as_str());
    out.append("\",\"players\":[");
    append_player_list(&mut out, &t.players, 0);
    out.append("]}");
    proof {
        assert(t.persistent_team.persistent_player_ids@.skip(0)
            =~= t.persistent_team.persistent_player_ids@);
        assert(t.players@.skip(0) =~= t.players@);
        let l1 = "{\"_id\":\""@;
        let l2 = "\",\"persistentTeamID\":\""@;
        let l3 = "\",\"persistentTeam\":{\"name\":\""@;
        let l4 = "\",\"logoUrl\":\""@;
        let l5 = "\",\"persistentPlayerIDs\":["@;
        let l6 = "],\"persistentCaptainID\":\""@;
        let l7 = "\",\"players\":["@;
        let l8 = "]}"@;
        let v1 = t.id@;
        let v2 = t.persistent_team_id@;
        let v3 = t.persistent_team.name@;
        let v4 = t.persistent_team.logo_url@;
        let v5 = t.persistent_team.persistent_captain_id@;
        let e6 = enc_id_list(id_views(t.persistent_team.persistent_player_ids@));
        let e7 = enc_player_list(t.players@);
        let c15 = l8;
        let c14 = e7 + c15;
        let c13 = l7 + c14;
        let c12 = v5 + c13;
        let c11 = l6 + c12;
        let c10 = e6 + c11;
        let c9 = l5 + c10;
        let c8 = v4 + c9;
        let c7 = l4 + c8;
        let c6 = v3 + c7;
        let c5 = l3 + c6;
        let c4 = v2 + c5;
        let c3 = l2 + c4;
        let c2 = v1 + c3;
        let p2 = l1 + v1;
        let p3 = p2 + l2;
        let p4 = p3 + v2;
        let p5 = p4 + l3;
        let p6 = p5 + v3;
        let p7 = p6 + l4;
        let p8 = p7 + v4;
        let p9 = p8 + l5;
        let p10 = p9 + e6;
        let p11 = p10 + l6;
        let p12 = p11 + v5;
        let p13 = p12 + l7;
        let p14 = p13 + e7;
        let p15 = p14 + l8;
        assert(out@ == p15);
        lemma_add_assoc(p13, e7, c15);
        lemma_add_assoc(p12, l7, c14);
        lemma_add_assoc(p11, v5, c13);
        lemma_add_assoc(p10, l6, c12);
        lemma_add_assoc(p9, e6, c11);
        lemma_add_assoc(p8, l5, c10);
        lemma_add_assoc(p7, v4, c9);
        lemma_add_assoc(p6, l4, c8);
        lemma_add_assoc(p5, v3, c7);
        lemma_add_assoc(p4, l3, c6);
        lemma_add_assoc(p3, v2, c5);
        lemma_add_assoc(p2, l2, c4);
        lemma_add_assoc(l1, v1, c3);
        assert(out@ == enc_team(*t));
    }
    out
}

/// Emits the canonical wire text of a match record.
pub fn match_to_json(m: &Match) -> (r: String)
    ensures
        r@ == enc_match(*m),
{
    let mut out = String::from_str("{\"_id\":\"");
    out.append(m.id.as_str());
    out.append("\",\"top\":{\"team\":");
    let top = team_to_json(&m.top.team);
    out.append(top.as_str());
    out.append("},\"bottom\":{\"team\":");
    let bottom = team_to_json(&m.bottom.team);
    out.append(bottom.as_str());
    out.append("}}");
    proof {
        assert(out@ =~= enc_match(*m));
    }
    out
}

/// How pushing one identifier extends the list's wire text.
proof fn lemma_id_list_push(vs: Seq<Seq<char>>, x: Seq<char>)
    ensures
        vs.len() == 0 ==> enc_id_list(vs.push(x)) == seq!['"'] + x + seq!['"'],
        vs.len() > 0 ==> enc_id_list(vs.push(x)) == enc_id_list(vs) + seq![','] + (seq!['"'] + x
            + seq!['"']),
    decreases vs.len(),
{
    let w = vs.push(x);
    if vs.len() == 0 {
        assert(w[0] == x);
        assert(enc_id_list(w) =~= seq!['"'] + x + seq!['"']);
    } else {
        assert(w[0] == vs[0]);
        assert(w.drop_first() =~= vs.drop_first().push(x));
        lemma_id_list_push(vs.drop_first(), x);
        if vs.len() == 1 {
            assert(vs.drop_first().len() == 0);
            assert(enc_id_list(w) =~= enc_id_list(vs) + seq![','] + (seq!['"'] + x + seq!['"']));
        } else {
            assert(enc_id_list(w) =~= enc_id_list(vs) + seq![','] + (seq!['"'] + x + seq!['"']));
        }
    }
}

/// Where the pieces of a non-empty identifier list's wire text stand.
proof fn lemma_id_elem_shape(s: Seq<char>, cur: int, end: int, sfx: Seq<Seq<char>>)
    requires
        0 <= cur,
        cur + enc_id_list(sfx).len() == end,
        end < s.len(),
        sfx.len() > 0,
        s.subrange(cur, end) == enc_id_list(sfx),
    ensures
        s[cur] == '"',
        cur + 2 + sfx[0].len() <= end,
        s.subrange(cur + 1, cur + 1 + sfx[0].len()) == sfx[0],
        s[cur + 1 + sfx[0].len()] == '"',
        sfx.len() == 1 ==> cur + 2 + sfx[0].len() == end,
        sfx.len() > 1 ==> s[cur + 2 + sfx[0].len()] == ',' && s.subrange(
            cur + 3 + sfx[0].len(),
            end,
        ) == enc_id_list(sfx.drop_first()) && cur + 3 + sfx[0].len() + enc_id_list(
            sfx.drop_first(),
        ).len() == end,
{
    let tail = if sfx.len() == 1 {
        Seq::<char>::empty()
    } else {
        seq![','] + enc_id_list(sfx.drop_first())
    };
    assert(enc_id_list(sfx) == seq!['"'] + (sfx[0] + (seq!['"'] + tail)));
    lemma_split_at(s, cur, seq!['"'], sfx[0] + (seq!['"'] + tail));
    assert(s[cur] == s.subrange(cur, cur + 1)[0]);
    lemma_split_at(s, cur + 1, sfx[0], seq!['"'] + tail);
    lemma_split_at(s, cur + 1 + sfx[0].len(), seq!['"'], tail);
    assert(s[cur + 1 + sfx[0].len()] == s.subrange(
        cur + 1 + sfx[0].len(),
        cur + 2 + sfx[0].len(),
    )[0]);
    if sfx.len() > 1 {
        lemma_split_at(s, cur + 2 + sfx[0].len(), seq![','], enc_id_list(sfx.drop_first()));
        assert(s[cur + 2 + sfx[0].len()] == s.subrange(
            cur + 2 + sfx[0].len(),
            cur + 3 + sfx[0].len(),
        )[0]);
    }
}

/// The wire text of a (clean) identifier list stands at `pos` in `s`, with
/// the closing bracket right after it.
pub open spec fn id_list_encoded_at(s: Seq<char>, pos: int, vs: Seq<Seq<char>>) -> bool {
    &&& forall|i: int| 0 <= i < vs.len() ==> clean_str(#[trigger] vs[i])
    &&& 0 <= pos
    &&& pos + enc_id_list(vs).len() < s.len()
    &&& s.subrange(pos, pos + enc_id_list(vs).len()) == enc_id_list(vs)
    &&& s[pos + enc_id_list(vs).len()] == ']'
}

/// Reads a bracketless identifier list starting at `pos`, stopping before
/// the closing bracket. When the wire text of any clean list stands there,
/// the read succeeds and returns exactly those identifiers; whatever is
/// returned re-encodes to exactly the span that was read.
#[verifier::rlimit(100)]
fn id_list_from_json_at(s: &str, pos: usize) -> (r: Option<(Vec<String>, usize)>)
    requires
        pos <= s@.len(),
    ensures
        forall|vs: Seq<Seq<char>>|
            id_list_encoded_at(s@, pos as int, vs) ==> (r matches Some(t) && id_views(t.0@) == vs
                && t.1 == pos + enc_id_list(vs).len()),
        r matches Some(t) ==> {
            &&& pos <= t.1 <= s@.len()
            &&& (forall|i: int| 0 <= i < t.0@.len() ==> clean_str(#[trigger] t.0@[i]@))
            &&& s@.subrange(pos as int, t.1 as int) == enc_id_list(id_views(t.0@))
        },
{
    let slen = s.unicode_len();
    if pos >= slen {
        proof {
            assert forall|vs: Seq<Seq<char>>| !id_list_encoded_at(s@, pos as int, vs) by {}
        }
        return None;
    }
    if s.get_char(pos) == ']' {
        let out: Vec<String> = Vec::new();
        proof {
            assert forall|vs: Seq<Seq<char>>|
                id_list_encoded_at(s@, pos as int, vs) implies (id_views(out@) == vs && pos as int
                == pos + enc_id_list(vs).len()) by {
                if vs.len() > 0 {
                    assert(enc_id_list(vs)[0] == '"');
                    assert(s@[pos as int] == s@.subrange(
                        pos as int,
                        pos + enc_id_list(vs).len(),
                    )[0]);
                    assert(false);
                }
                assert(vs =~= Seq::<Seq<char>>::empty());
                assert(id_views(out@) =~= vs);
            }
            assert(id_views(out@) =~= Seq::<Seq<char>>::empty());
            assert(s@.subrange(pos as int, pos as int) =~= enc_id_list(id_views(out@)));
        }
        return Some((out, pos));
    }
    let mut out: Vec<String> = Vec::new();
    let mut cur: usize = pos;
    proof {
        assert forall|vs: Seq<Seq<char>>|
            id_list_encoded_at(s@, pos as int, vs) implies {
            &&& out@.len() < vs.len()
            &&& id_views(out@) == vs.take(out@.len() as int)
            &&& cur + enc_id_list(vs.skip(out@.len() as int)).len() == pos + enc_id_list(vs).len()
            &&& s@.subrange(cur as int, pos + enc_id_list(vs).len()) == enc_id_list(
                vs.skip(out@.len() as int),
            )
        } by {
            if vs.len() == 0 {
                assert(s@[pos as int] == ']');
                assert(false);
            }
            assert(vs.skip(0) =~= vs);
            assert(id_views(out@) =~= vs.take(0));
        }
    }
    loop
        invariant
            pos <= cur <= s@.len(),
            slen == s@.len(),
            pos < s@.len(),
            s@[pos as int] != ']',
            forall|i: int| 0 <= i < out@.len() ==> clean_str(#[trigger] out@[i]@),
            out@.len() == 0 ==> cur == pos,
            out@.len() > 0 ==> s@.subrange(pos as int, cur as int) == enc_id_list(id_views(out@))
                + seq![','],
            forall|vs: Seq<Seq<char>>|
                #![trigger id_list_encoded_at(s@, pos as int, vs)]
                id_list_encoded_at(s@, pos as int, vs) ==> {
                    &&& out@.len() < vs.len()
                    &&& id_views(out@) == vs.take(out@.len() as int)
                    &&& cur + enc_id_list(vs.skip(out@.len() as int)).len() == pos + enc_id_list(
                        vs,
                    ).len()
                    &&& s@.subrange(cur as int, pos + enc_id_list(vs).len()) == enc_id_list(
                        vs.skip(out@.len() as int),
                    )
                },
        decreases s@.len() - cur,
    {
        let ghost j = out@.len() as int;
        if cur >= slen {
            proof {
                assert forall|vs: Seq<Seq<char>>| !id_list_encoded_at(s@, pos as int, vs) by {
                    if id_list_encoded_at(s@, pos as int, vs) {
                        assert(enc_id_list(vs.skip(j)).len() > 0);
                    }
                }
            }
            return None;
        }
        if s.get_char(cur) != '"' {
            proof {
                assert forall|vs: Seq<Seq<char>>| !id_list_encoded_at(s@, pos as int, vs) by {
                    if id_list_encoded_at(s@, pos as int, vs) {
                        lemma_id_elem_shape(
                            s@,
                            cur as int,
                            pos + enc_id_list(vs).len(),
                            vs.skip(j),
                        );
                    }
                }
            }
            return None;
        }
        let (t, q) = match read_to_quote(s, cur + 1) {
            Some(v) => v,
            None => {
                proof {
                    assert forall|vs: Seq<Seq<char>>| !id_list_encoded_at(s@, pos as int, vs) by {
                        if id_list_encoded_at(s@, pos as int, vs) {
                            lemma_id_elem_shape(
                                s@,
                                cur as int,
                                pos + enc_id_list(vs).len(),
                                vs.skip(j),
                            );
                        }
                    }
                }
                return None;
            },
        };
        let cur2 = q + 1;
        if cur2 >= slen {
            proof {
                assert forall|vs: Seq<Seq<char>>| !id_list_encoded_at(s@, pos as int, vs) by {
                    if id_list_encoded_at(s@, pos as int, vs) {
                        let sfx = vs.skip(j);
                        lemma_id_elem_shape(s@, cur as int, pos + enc_id_list(vs).len(), sfx);
                        assert(sfx[0] == vs[j]);
                        lemma_quote_pins(s@, cur as int + 1, sfx[0], q as int);
                    }
                }
            }
            return None;
        }
        let c = s.get_char(cur2);
        let ghost told = t@;
        let ghost outold = out@;
        out.push(t);
        proof {
            assert(id_views(out@) =~= id_views(outold).push(told));
        }
        if c == ',' {
            proof {
                assert(s@.subrange(pos as int, cur2 as int + 1) =~= s@.subrange(
                    pos as int,
                    cur as int,
                ) + (seq!['"'] + told + seq!['"'] + seq![',']));
                lemma_id_list_push(id_views(outold), told);
                assert(s@.subrange(pos as int, cur2 as int + 1) =~= enc_id_list(id_views(out@))
                    + seq![',']);
                assert forall|vs: Seq<Seq<char>>|
                    id_list_encoded_at(s@, pos as int, vs) implies {
                    &&& out@.len() < vs.len()
                    &&& id_views(out@) == vs.take(out@.len() as int)
                    &&& cur2 + 1 + enc_id_list(vs.skip(out@.len() as int)).len() == pos
                        + enc_id_list(vs).len()
                    &&& s@.subrange(cur2 as int + 1, pos + enc_id_list(vs).len()) == enc_id_list(
                        vs.skip(out@.len() as int),
                    )
                } by {
                    let sfx = vs.skip(j);
                    lemma_id_elem_shape(s@, cur as int, pos + enc_id_list(vs).len(), sfx);
                    assert(sfx[0] == vs[j]);
                    lemma_quote_pins(s@, cur as int + 1, sfx[0], q as int);
                    if sfx.len() == 1 {
                        assert(s@[cur2 as int] == ']');
                        assert(false);
                    }
                    assert(sfx.drop_first() =~= vs.skip(j + 1));
                    assert(vs.take(j + 1) =~= vs.take(j).push(vs[j]));
                }
            }
            cur = cur2 + 1;
        } else if c == ']' {
            proof {
                assert(s@.subrange(pos as int, cur2 as int) =~= s@.subrange(
                    pos as int,
                    cur as int,
                ) + (seq!['"'] + told + seq!['"']));
                lemma_id_list_push(id_views(outold), told);
                assert(s@.subrange(pos as int, cur2 as int) =~= enc_id_list(id_views(out@)));
                assert forall|vs: Seq<Seq<char>>|
                    id_list_encoded_at(s@, pos as int, vs) implies (id_views(out@) == vs && cur2
                    == pos + enc_id_list(vs).len()) by {
                    let sfx = vs.skip(j);
                    lemma_id_elem_shape(s@, cur as int, pos + enc_id_list(vs).len(), sfx);
                    assert(sfx[0] == vs[j]);
                    lemma_quote_pins(s@, cur as int + 1, sfx[0], q as int);
                    if sfx.len() > 1 {
                        assert(s@[cur2 as int] == ',');
                        assert(false);
                    }
                    assert(vs =~= vs.take(j).push(vs[j]));
                    assert(id_views(out@) =~= vs);
                }
            }
            return Some((out, cur2));
        } else {
            proof {
                assert forall|vs: Seq<Seq<char>>| !id_list_encoded_at(s@, pos as int, vs) by {
                    if id_list_encoded_at(s@, pos as int, vs) {
                        let sfx = vs.skip(j);
                        lemma_id_elem_shape(s@, cur as int, pos + enc_id_list(vs).len(), sfx);
                        assert(sfx[0] == vs[j]);
                        lemma_quote_pins(s@, cur as int + 1, sfx[0], q as int);
                        if sfx.len() == 1 {
                            assert(s@[cur2 as int] == ']');
                        } else {
                            assert(s@[cur2 as int] == ',');
                        }
                    }
                }
            }
            return None;
        }
    }
}


/// How pushing one player extends the roster's wire text.
proof fn lemma_player_list_push(ps: Seq<Player>, x: Player)
    ensures
        ps.len() == 0 ==> enc_player_list(ps.push(x)) == enc_player(x),
        ps.len() > 0 ==> enc_player_list(ps.push(x)) == enc_player_list(ps) + seq![',']
            + enc_player(x),
    decreases ps.len(),
{
    let w = ps.push(x);
    if ps.len() == 0 {
        assert(w[0] == x);
        assert(enc_player_list(w) =~= enc_player(x));
    } else {
        assert(w[0] == ps[0]);
        assert(w.drop_first() =~= ps.drop_first().push(x));
        lemma_player_list_push(ps.drop_first(), x);
        assert(enc_player_list(w) =~= enc_player_list(ps) + seq![','] + enc_player(x));
    }
}

/// Where the pieces of a non-empty roster's wire text stand.
proof fn lemma_player_elem_shape(s: Seq<char>, cur: int, end: int, sfx: Seq<Player>)
    requires
        0 <= cur,
        cur + enc_player_list(sfx).len() == end,
        end <= s.len(),
        sfx.len() > 0,
        s.subrange(cur, end) == enc_player_list(sfx),
    ensures
        cur + enc_player(sfx[0]).len() <= end,
        s.subrange(cur, cur + enc_player(sfx[0]).len()) == enc_player(sfx[0]),
        sfx.len() == 1 ==> cur + enc_player(sfx[0]).len() == end,
        sfx.len() > 1 ==> s[cur + enc_player(sfx[0]).len()] == ',' && s.subrange(
            cur + 1 + enc_player(sfx[0]).len(),
            end,
        ) == enc_player_list(sfx.drop_first()) && cur + 1 + enc_player(sfx[0]).len()
            + enc_player_list(sfx.drop_first()).len() == end,
{
    let tail = if sfx.len() == 1 {
        Seq::<char>::empty()
    } else {
        seq![','] + enc_player_list(sfx.drop_first())
    };
    assert(enc_player_list(sfx) == enc_player(sfx[0]) + tail);
    lemma_split_at(s, cur, enc_player(sfx[0]), tail);
    if sfx.len() > 1 {
        lemma_split_at(s, cur + enc_player(sfx[0]).len(), seq![','], enc_player_list(
            sfx.drop_first(),
        ));
        assert(s[cur + enc_player(sfx[0]).len()] == s.subrange(
            cur + enc_player(sfx[0]).len(),
            cur + 1 + enc_player(sfx[0]).len(),
        )[0]);
    }
}

/// The wire text of a (clean) roster stands at `pos` in `s`, with the
/// closing bracket right after it.
pub open spec fn player_list_encoded_at(s: Seq<char>, pos: int, ps: Seq<Player>) -> bool {
    &&& forall|i: int| 0 <= i < ps.len() ==> clean_player(#[trigger] ps[i])
    &&& 0 <= pos
    &&& pos + enc_player_list(ps).len() < s.len()
    &&& s.subrange(pos, pos + enc_player_list(ps).len()) == enc_player_list(ps)
    &&& s[pos + enc_player_list(ps).len()] == ']'
}

/// Reads a bracketless roster starting at `pos`, stopping before the
/// closing bracket. When the wire text of any clean roster stands there, the
/// read succeeds and returns records carrying the same data, member for
/// member; whatever is returned re-encodes to exactly the span that was
/// read.
#[verifier::rlimit(100)]
fn player_list_from_json_at(s: &str, pos: usize) -> (r: Option<(Vec<Player>, usize)>)
    requires
        pos <= s@.len(),
    ensures
        forall|ps: Seq<Player>|
            player_list_encoded_at(s@, pos as int, ps) ==> (r matches Some(t) && t.0@.len()
                == ps.len() && (forall|k: int|
                0 <= k < ps.len() ==> player_data_eq(#[trigger] t.0@[k], ps[k])) && t.1 == pos
                + enc_player_list(ps).len()),
        r matches Some(t) ==> {
            &&& pos <= t.1 <= s@.len()
            &&& (forall|i: int| 0 <= i < t.0@.len() ==> clean_player(#[trigger] t.0@[i]))
            &&& s@.subrange(pos as int, t.1 as int) == enc_player_list(t.0@)
        },
{
    let slen = s.unicode_len();
    if pos >= slen {
        proof {
            assert forall|ps: Seq<Player>| !player_list_encoded_at(s@, pos as int, ps) by {}
        }
        return None;
    }
    if s.get_char(pos) == ']' {
        let out: Vec<Player> = Vec::new();
        proof {
            assert forall|ps: Seq<Player>|
                player_list_encoded_at(s@, pos as int, ps) implies (ps.len() == 0 && pos as int
                == pos + enc_player_list(ps).len()) by {
                if ps.len() > 0 {
                    reveal_strlit("{\"_id\":\"");
                    assert(enc_player(ps[0])[0] == '{');
                    assert(enc_player_list(ps)[0] == '{');
                    assert(s@[pos as int] == s@.subrange(
                        pos as int,
                        pos + enc_player_list(ps).len(),
                    )[0]);
                    assert(false);
                }
            }
            assert(s@.subrange(pos as int, pos as int) =~= enc_player_list(out@));
        }
        return Some((out, pos));
    }
    let mut out: Vec<Player> = Vec::new();
    let mut cur: usize = pos;
    proof {
        assert forall|ps: Seq<Player>|
            player_list_encoded_at(s@, pos as int, ps) implies {
            &&& out@.len() < ps.len()
            &&& (forall|k: int| 0 <= k < out@.len() ==> player_data_eq(#[trigger] out@[k], ps[k]))
            &&& cur + enc_player_list(ps.skip(out@.len() as int)).len() == pos + enc_player_list(
                ps,
            ).len()
            &&& s@.subrange(cur as int, pos + enc_player_list(ps).len()) == enc_player_list(
                ps.skip(out@.len() as int),
            )
        } by {
            if ps.len() == 0 {
                assert(s@[pos as int] == ']');
                assert(false);
            }
            assert(ps.skip(0) =~= ps);
        }
    }
    loop
        invariant
            pos <= cur <= s@.len(),
            slen == s@.len(),
            pos < s@.len(),
            s@[pos as int] != ']',
            forall|i: int| 0 <= i < out@.len() ==> clean_player(#[trigger] out@[i]),
            out@.len() == 0 ==> cur == pos,
            out@.len() > 0 ==> s@.subrange(pos as int, cur as int) == enc_player_list(out@)
                + seq![','],
            forall|ps: Seq<Player>|
                #![trigger player_list_encoded_at(s@, pos as int, ps)]
                player_list_encoded_at(s@, pos as int, ps) ==> {
                    &&& out@.len() < ps.len()
                    &&& (forall|k: int|
                        0 <= k < out@.len() ==> player_data_eq(#[trigger] out@[k], ps[k]))
                    &&& cur + enc_player_list(ps.skip(out@.len() as int)).len() == pos
                        + enc_player_list(ps).len()
                    &&& s@.subrange(cur as int, pos + enc_player_list(ps).len())
                        == enc_player_list(ps.skip(out@.len() as int))
                },
        decreases s@.len() - cur,
    {
        let ghost j = out@.len() as int;
        let (pl, np) = match player_from_json_at(s, cur) {
            Some(v) => v,
            None => {
                proof {
                    assert forall|ps: Seq<Player>|
                        !player_list_encoded_at(s@, pos as int, ps) by {
                        if player_list_encoded_at(s@, pos as int, ps) {
                            let sfx = ps.skip(j);
                            lemma_player_elem_shape(
                                s@,
                                cur as int,
                                pos + enc_player_list(ps).len(),
                                sfx,
                            );
                            assert(sfx[0] == ps[j]);
                            assert(player_encoded_at(s@, cur as int, sfx[0]));
                        }
                    }
                }
                return None;
            },
        };
        if np >= slen {
            proof {
                assert forall|ps: Seq<Player>| !player_list_encoded_at(s@, pos as int, ps) by {
                    if player_list_encoded_at(s@, pos as int, ps) {
                        let sfx = ps.skip(j);
                        lemma_player_elem_shape(
                            s@,
                            cur as int,
                            pos + enc_player_list(ps).len(),
                            sfx,
                        );
                        assert(sfx[0] == ps[j]);
                        assert(player_encoded_at(s@, cur as int, sfx[0]));
                    }
                }
            }
            return None;
        }
        let c = s.get_char(np);
        let ghost plold = pl;
        let ghost outold = out@;
        out.push(pl);
        if c == ',' {
            proof {
                assert(s@.subrange(pos as int, np as int + 1) =~= s@.subrange(
                    pos as int,
                    cur as int,
                ) + (enc_player(plold) + seq![',']));
                lemma_player_list_push(outold, plold);
                assert(s@.subrange(pos as int, np as int + 1) =~= enc_player_list(out@)
                    + seq![',']);
                assert forall|ps: Seq<Player>|
                    player_list_encoded_at(s@, pos as int, ps) implies {
                    &&& out@.len() < ps.len()
                    &&& (forall|k: int|
                        0 <= k < out@.len() ==> player_data_eq(#[trigger] out@[k], ps[k]))
                    &&& np + 1 + enc_player_list(ps.skip(out@.len() as int)).len() == pos
                        + enc_player_list(ps).len()
                    &&& s@.subrange(np as int + 1, pos + enc_player_list(ps).len())
                        == enc_player_list(ps.skip(out@.len() as int))
                } by {
                    let sfx = ps.skip(j);
                    lemma_player_elem_shape(s@, cur as int, pos + enc_player_list(ps).len(), sfx);
                    assert(sfx[0] == ps[j]);
                    assert(player_encoded_at(s@, cur as int, sfx[0]));
                    assert(np == cur + enc_player(sfx[0]).len());
                    if sfx.len() == 1 {
                        assert(s@[np as int] == ']');
                        assert(false);
                    }
                    assert(sfx.drop_first() =~= ps.skip(j + 1));
                    assert forall|k: int|
                        0 <= k < out@.len() implies player_data_eq(#[trigger] out@[k], ps[k]) by {
                        if k < j {
                        } else {
                            assert(out@[k] == plold);
                        }
                    }
                }
            }
            cur = np + 1;
        } else if c == ']' {
            proof {
                assert(s@.subrange(pos as int, np as int) =~= s@.subrange(pos as int, cur as int)
                    + enc_player(plold));
                lemma_player_list_push(outold, plold);
                assert(s@.subrange(pos as int, np as int) =~= enc_player_list(out@));
                assert forall|ps: Seq<Player>|
                    player_list_encoded_at(s@, pos as int, ps) implies (out@.len() == ps.len() && (
                forall|k: int| 0 <= k < ps.len() ==> player_data_eq(#[trigger] out@[k], ps[k]))
                    && np == pos + enc_player_list(ps).len()) by {
                    let sfx = ps.skip(j);
                    lemma_player_elem_shape(s@, cur as int, pos + enc_player_list(ps).len(), sfx);
                    assert(sfx[0] == ps[j]);
                    assert(player_encoded_at(s@, cur as int, sfx[0]));
                    assert(np == cur + enc_player(sfx[0]).len());
                    if sfx.len() > 1 {
                        assert(s@[np as int] == ',');
                        assert(false);
                    }
                    assert forall|k: int|
                        0 <= k < ps.len() implies player_data_eq(#[trigger] out@[k], ps[k]) by {
                        if k < j {
                        } else {
                            assert(out@[k] == plold);
                        }
                    }
                }
            }
            return Some((out, np));
        } else {
            proof {
                assert forall|ps: Seq<Player>| !player_list_encoded_at(s@, pos as int, ps) by {
                    if player_list_encoded_at(s@, pos as int, ps) {
                        let sfx = ps.skip(j);
                        lemma_player_elem_shape(
                            s@,
                            cur as int,
                            pos + enc_player_list(ps).len(),
                            sfx,
                        );
                        assert(sfx[0] == ps[j]);
                        assert(player_encoded_at(s@, cur as int, sfx[0]));
                        assert(np == cur + enc_player(sfx[0]).len());
                        if sfx.len() == 1 {
                            assert(s@[np as int] == ']');
                        } else {
                            assert(s@[np as int] == ',');
                        }
                    }
                }
            }
            return None;
        }
    }
}

/// The wire text of a (wire-clean) team record stands at `pos` in `s`.
pub open spec fn team_encoded_at(s: Seq<char>, pos: int, t: Team) -> bool {
    &&& clean_team(t)
    &&& 0 <= pos
    &&& pos + enc_team(t).len() <= s.len()
    &&& s.subrange(pos, pos + enc_team(t).len()) == enc_team(t)
}

/// Where each piece of an encoded team record stands, and how long the
/// whole text is. The two list regions are stated through the list-at
/// predicates, ready for the list readers.
#[verifier::rlimit(100)]
proof fn lemma_team_shape(s: Seq<char>, pos: int, t: Team)
    requires
        team_encoded_at(s, pos, t),
    ensures
        ({
            let a = t.id@.len() as int;
            let b = t.persistent_team_id@.len() as int;
            let c = t.persistent_team.name@.len() as int;
            let d = t.persistent_team.logo_url@.len() as int;
            let ee = enc_id_list(id_views(t.persistent_team.persistent_player_ids@)).len() as int;
            let f = t.persistent_team.persistent_captain_id@.len() as int;
            let g = enc_player_list(t.players@).len() as int;
            &&& enc_team(t).len() == 136 + a + b + c + d + ee + f + g
            &&& s.subrange(pos, pos + 8) == "{\"_id\":\""@
            &&& s.subrange(pos + 8, pos + 8 + a) == t.id@
            &&& s[pos + 8 + a] == '"'
            &&& s.subrange(pos + 8 + a, pos + 30 + a) == "\",\"persistentTeamID\":\""@
            &&& s.subrange(pos + 30 + a, pos + 30 + a + b) == t.persistent_team_id@
            &&& s[pos + 30 + a + b] == '"'
            &&& s.subrange(pos + 30 + a + b, pos + 58 + a + b)
                == "\",\"persistentTeam\":{\"name\":\""@
            &&& s.subrange(pos + 58 + a + b, pos + 58 + a + b + c) == t.persistent_team.name@
            &&& s[pos + 58 + a + b + c] == '"'
            &&& s.subrange(pos + 58 + a + b + c, pos + 71 + a + b + c) == "\",\"logoUrl\":\""@
            &&& s.subrange(pos + 71 + a + b + c, pos + 71 + a + b + c + d)
                == t.persistent_team.logo_url@
            &&& s[pos + 71 + a + b + c + d] == '"'
            &&& s.subrange(pos + 71 + a + b + c + d, pos + 96 + a + b + c + d)
                == "\",\"persistentPlayerIDs\":["@
            &&& id_list_encoded_at(
                s,
                pos + 96 + a + b + c + d,
                id_views(t.persistent_team.persistent_player_ids@),
            )
            &&& s.subrange(pos + 96 + a + b + c + d + ee, pos + 121 + a + b + c + d + ee)
                == "],\"persistentCaptainID\":\""@
            &&& s.subrange(
                pos + 121 + a + b + c + d + ee,
                pos + 121 + a + b + c + d + ee + f,
            ) == t.persistent_team.persistent_captain_id@
            &&& s[pos + 121 + a + b + c + d + ee + f] == '"'
            &&& s.subrange(
                pos + 121 + a + b + c + d + ee + f,
                pos + 134 + a + b + c + d + ee + f,
            ) == "\",\"players\":["@
            &&& player_list_encoded_at(s, pos + 134 + a + b + c + d + ee + f, t.players@)
            &&& s.subrange(
                pos + 134 + a + b + c + d + ee + f + g,
                pos + 136 + a + b + c + d + ee + f + g,
            ) == "]}"@
        }),
{
    reveal_strlit("{\"_id\":\"");
    reveal_strlit("\",\"persistentTeamID\":\"");
    reveal_strlit("\",\"persistentTeam\":{\"name\":\"");
    reveal_strlit("\",\"logoUrl\":\"");
    reveal_strlit("\",\"persistentPlayerIDs\":[");
    reveal_strlit("],\"persistentCaptainID\":\"");
    reveal_strlit("\",\"players\":[");
    reveal_strlit("]}");
    let l1 = "{\"_id\":\""@;
    let l2 = "\",\"persistentTeamID\":\""@;
    let l3 = "\",\"persistentTeam\":{\"name\":\""@;
    let l4 = "\",\"logoUrl\":\""@;
    let l5 = "\",\"persistentPlayerIDs\":["@;
    let l6 = "],\"persistentCaptainID\":\""@;
    let l7 = "\",\"players\":["@;
    let l8 = "]}"@;
    let v1 = t.id@;
    let v2 = t.persistent_team_id@;
    let v3 = t.persistent_team.name@;
    let v4 = t.persistent_team.logo_url@;
    let e6 = enc_id_list(id_views(t.persistent_team.persistent_player_ids@));
    let v5 = t.persistent_team.persistent_captain_id@;
    let e7 = enc_player_list(t.players@);
    let r2 = l2 + (v2 + (l3 + (v3 + (l4 + (v4 + (l5 + (e6 + (l6 + (v5 + (l7 + (e7 + l8)))))))))));
    let r3 = v2 + (l3 + (v3 + (l4 + (v4 + (l5 + (e6 + (l6 + (v5 + (l7 + (e7 + l8))))))))));
    let r4 = l3 + (v3 + (l4 + (v4 + (l5 + (e6 + (l6 + (v5 + (l7 + (e7 + l8)))))))));
    let r5 = v3 + (l4 + (v4 + (l5 + (e6 + (l6 + (v5 + (l7 + (e7 + l8))))))));
    let r6 = l4 + (v4 + (l5 + (e6 + (l6 + (v5 + (l7 + (e7 + l8)))))));
    let r7 = v4 + (l5 + (e6 + (l6 + (v5 + (l7 + (e7 + l8))))));
    let r8 = l5 + (e6 + (l6 + (v5 + (l7 + (e7 + l8)))));
    let r9 = e6 + (l6 + (v5 + (l7 + (e7 + l8))));
    let r10 = l6 + (v5 + (l7 + (e7 + l8)));
    let r11 = v5 + (l7 + (e7 + l8));
    let r12 = l7 + (e7 + l8);
    let r13 = e7 + l8;
    let a = v1.len() as int;
    let b = v2.len() as int;
    let c = v3.len() as int;
    let d = v4.len() as int;
    let ee = e6.len() as int;
    let f = v5.len() as int;
    lemma_split_at(s, pos, l1, v1 + r2);
    lemma_split_at(s, pos + 8, v1, r2);
    lemma_split_at(s, pos + 8 + a, l2, r3);
    lemma_split_at(s, pos + 30 + a, v2, r4);
    lemma_split_at(s, pos + 30 + a + b, l3, r5);
    lemma_split_at(s, pos + 58 + a + b, v3, r6);
    lemma_split_at(s, pos + 58 + a + b + c, l4, r7);
    lemma_split_at(s, pos + 71 + a + b + c, v4, r8);
    lemma_split_at(s, pos + 71 + a + b + c + d, l5, r9);
    lemma_split_at(s, pos + 96 + a + b + c + d, e6, r10);
    lemma_split_at(s, pos + 96 + a + b + c + d + ee, l6, r11);
    lemma_split_at(s, pos + 121 + a + b + c + d + ee, v5, r12);
    lemma_split_at(s, pos + 121 + a + b + c + d + ee + f, l7, r13);
    lemma_split_at(s, pos + 134 + a + b + c + d + ee + f, e7, l8);
    assert(s[pos + 8 + a] == s.subrange(pos + 8 + a, pos + 30 + a)[0]);
    assert(s[pos + 30 + a + b] == s.subrange(pos + 30 + a + b, pos + 58 + a + b)[0]);
    assert(s[pos + 58 + a + b + c] == s.subrange(pos + 58 + a + b + c, pos + 71 + a + b + c)[0]);
    assert(s[pos + 71 + a + b + c + d] == s.subrange(
        pos + 71 + a + b + c + d,
        pos + 96 + a + b + c + d,
    )[0]);
    assert(s[pos + 96 + a + b + c + d + ee] == s.subrange(
        pos + 96 + a + b + c + d + ee,
        pos + 121 + a + b + c + d + ee,
    )[0]);
    assert(s[pos + 121 + a + b + c + d + ee + f] == s.subrange(
        pos + 121 + a + b + c + d + ee + f,
        pos + 134 + a + b + c + d + ee + f,
    )[0]);
    let g = e7.len() as int;
    assert(s[pos + 134 + a + b + c + d + ee + f + g] == s.subrange(
        pos + 134 + a + b + c + d + ee + f + g,
        pos + 136 + a + b + c + d + ee + f + g,
    )[0]);
}

/// The converse of [`lemma_team_shape`]: pieces standing in their places
/// assemble into one encoded team record.
#[verifier::rlimit(100)]
proof fn lemma_team_assemble(s: Seq<char>, pos: int, q: Team)
    requires
        ({
            let a = q.id@.len() as int;
            let b = q.persistent_team_id@.len() as int;
            let c = q.persistent_team.name@.len() as int;
            let d = q.persistent_team.logo_url@.len() as int;
            let ee = enc_id_list(id_views(q.persistent_team.persistent_player_ids@)).len() as int;
            let f = q.persistent_team.persistent_captain_id@.len() as int;
            let g = enc_player_list(q.players@).len() as int;
            &&& 0 <= pos
            &&& pos + 136 + a + b + c + d + ee + f + g <= s.len()
            &&& s.subrange(pos, pos + 8) == "{\"_id\":\""@
            &&& s.subrange(pos + 8, pos + 8 + a) == q.id@
            &&& s.subrange(pos + 8 + a, pos + 30 + a) == "\",\"persistentTeamID\":\""@
            &&& s.subrange(pos + 30 + a, pos + 30 + a + b) == q.persistent_team_id@
            &&& s.subrange(pos + 30 + a + b, pos + 58 + a + b)
                == "\",\"persistentTeam\":{\"name\":\""@
            &&& s.subrange(pos + 58 + a + b, pos + 58 + a + b + c) == q.persistent_team.name@
            &&& s.subrange(pos + 58 + a + b + c, pos + 71 + a + b + c) == "\",\"logoUrl\":\""@
            &&& s.subrange(pos + 71 + a + b + c, pos + 71 + a + b + c + d)
                == q.persistent_team.logo_url@
            &&& s.subrange(pos + 71 + a + b + c + d, pos + 96 + a + b + c + d)
                == "\",\"persistentPlayerIDs\":["@
            &&& s.subrange(pos + 96 + a + b + c + d, pos + 96 + a + b + c + d + ee)
                == enc_id_list(id_views(q.persistent_team.persistent_player_ids@))
            &&& s.subrange(pos + 96 + a + b + c + d + ee, pos + 121 + a + b + c + d + ee)
                == "],\"persistentCaptainID\":\""@
            &&& s.subrange(
                pos + 121 + a + b + c + d + ee,
                pos + 121 + a + b + c + d + ee + f,
            ) == q.persistent_team.persistent_captain_id@
            &&& s.subrange(
                pos + 121 + a + b + c + d + ee + f,
                pos + 134 + a + b + c + d + ee + f,
            ) == "\",\"players\":["@
            &&& s.subrange(
                pos + 134 + a + b + c + d + ee + f,
                pos + 134 + a + b + c + d + ee + f + g,
            ) == enc_player_list(q.players@)
            &&& s.subrange(
                pos + 134 + a + b + c + d + ee + f + g,
                pos + 136 + a + b + c + d + ee + f + g,
            ) == "]}"@
        }),
    ensures
        enc_team(q).len() == 136 + q.id@.len() + q.persistent_team_id@.len()
            + q.persistent_team.name@.len() + q.persistent_team.logo_url@.len() + enc_id_list(
            id_views(q.persistent_team.persistent_player_ids@),
        ).len() + q.persistent_team.persistent_captain_id@.len() + enc_player_list(
            q.players@,
        ).len(),
        s.subrange(pos, pos + enc_team(q).len()) == enc_team(q),
{
    reveal_strlit("{\"_id\":\"");
    reveal_strlit("\",\"persistentTeamID\":\"");
    reveal_strlit("\",\"persistentTeam\":{\"name\":\"");
    reveal_strlit("\",\"logoUrl\":\"");
    reveal_strlit("\",\"persistentPlayerIDs\":[");
    reveal_strlit("],\"persistentCaptainID\":\"");
    reveal_strlit("\",\"players\":[");
    reveal_strlit("]}");
    let l1 = "{\"_id\":\""@;
    let l2 = "\",\"persistentTeamID\":\""@;
    let l3 = "\",\"persistentTeam\":{\"name\":\""@;
    let l4 = "\",\"logoUrl\":\""@;
    let l5 = "\",\"persistentPlayerIDs\":["@;
    let l6 = "],\"persistentCaptainID\":\""@;
    let l7 = "\",\"players\":["@;
    let l8 = "]}"@;
    let v1 = q.id@;
    let v2 = q.persistent_team_id@;
    let v3 = q.persistent_team.name@;
    let v4 = q.persistent_team.logo_url@;
    let e6 = enc_id_list(id_views(q.persistent_team.persistent_player_ids@));
    let v5 = q.persistent_team.persistent_captain_id@;
    let e7 = enc_player_list(q.players@);
    let a = v1.len() as int;
    let b = v2.len() as int;
    let c = v3.len() as int;
    let d = v4.len() as int;
    let ee = e6.len() as int;
    let f = v5.len() as int;
    let g = e7.len() as int;
    let np = pos + 136 + a + b + c + d + ee + f + g;
    assert(s.subrange(pos + 134 + a + b + c + d + ee + f, np) =~= e7 + l8);
    assert(s.subrange(pos + 121 + a + b + c + d + ee + f, np) =~= l7 + (e7 + l8));
    assert(s.subrange(pos + 121 + a + b + c + d + ee, np) =~= v5 + (l7 + (e7 + l8)));
    assert(s.subrange(pos + 96 + a + b + c + d + ee, np) =~= l6 + (v5 + (l7 + (e7 + l8))));
    assert(s.subrange(pos + 96 + a + b + c + d, np) =~= e6 + (l6 + (v5 + (l7 + (e7 + l8)))));
    assert(s.subrange(pos + 71 + a + b + c + d, np) =~= l5 + (e6 + (l6 + (v5 + (l7 + (e7
        + l8))))));
    assert(s.subrange(pos + 71 + a + b + c, np) =~= v4 + (l5 + (e6 + (l6 + (v5 + (l7 + (e7
        + l8)))))));
    assert(s.subrange(pos + 58 + a + b + c, np) =~= l4 + (v4 + (l5 + (e6 + (l6 + (v5 + (l7 + (e7
        + l8))))))));
    assert(s.subrange(pos + 58 + a + b, np) =~= v3 + (l4 + (v4 + (l5 + (e6 + (l6 + (v5 + (l7 + (
    e7 + l8)))))))));
    assert(s.subrange(pos + 30 + a + b, np) =~= l3 + (v3 + (l4 + (v4 + (l5 + (e6 + (l6 + (v5 + (
    l7 + (e7 + l8))))))))));
    assert(s.subrange(pos + 30 + a, np) =~= v2 + (l3 + (v3 + (l4 + (v4 + (l5 + (e6 + (l6 + (v5 + (
    l7 + (e7 + l8)))))))))));
    assert(s.subrange(pos + 8 + a, np) =~= l2 + (v2 + (l3 + (v3 + (l4 + (v4 + (l5 + (e6 + (l6 + (
    v5 + (l7 + (e7 + l8))))))))))));
    assert(s.subrange(pos + 8, np) =~= v1 + (l2 + (v2 + (l3 + (v3 + (l4 + (v4 + (l5 + (e6 + (l6
        + (v5 + (l7 + (e7 + l8)))))))))))));
    assert(s.subrange(pos, np) =~= l1 + (v1 + (l2 + (v2 + (l3 + (v3 + (l4 + (v4 + (l5 + (e6 + (l6
        + (v5 + (l7 + (e7 + l8))))))))))))));
}

/// Bundles [`lemma_team_shape`] with the position pinning of the first `n`
/// quote-delimited fields of an encoded team record.
#[verifier::rlimit(100)]
proof fn lemma_team_locate(
    s: Seq<char>,
    pos: int,
    t: Team,
    n: int,
    q1: int,
    q2: int,
    q3: int,
    q4: int,
    q5: int,
)
    requires
        team_encoded_at(s, pos, t),
        0 <= n <= 5,
        n >= 1 ==> pos + 8 <= q1 < s.len() && s[q1] == '"' && (forall|k: int|
            pos + 8 <= k < q1 ==> s[k] != '"'),
        n >= 2 ==> q1 + 22 <= q2 < s.len() && s[q2] == '"' && (forall|k: int|
            q1 + 22 <= k < q2 ==> s[k] != '"'),
        n >= 3 ==> q2 + 28 <= q3 < s.len() && s[q3] == '"' && (forall|k: int|
            q2 + 28 <= k < q3 ==> s[k] != '"'),
        n >= 4 ==> q3 + 13 <= q4 < s.len() && s[q4] == '"' && (forall|k: int|
            q3 + 13 <= k < q4 ==> s[k] != '"'),
        n >= 5 ==> pos + 121 + t.id@.len() + t.persistent_team_id@.len()
            + t.persistent_team.name@.len() + t.persistent_team.logo_url@.len() + enc_id_list(
            id_views(t.persistent_team.persistent_player_ids@),
        ).len() <= q5 < s.len() && s[q5] == '"' && (forall|k: int|
            pos + 121 + t.id@.len() + t.persistent_team_id@.len() + t.persistent_team.name@.len()
                + t.persistent_team.logo_url@.len() + enc_id_list(
                id_views(t.persistent_team.persistent_player_ids@),
            ).len() <= k < q5 ==> s[k] != '"'),
    ensures
        ({
            let a = t.id@.len() as int;
            let b = t.persistent_team_id@.len() as int;
            let c = t.persistent_team.name@.len() as int;
            let d = t.persistent_team.logo_url@.len() as int;
            let ee = enc_id_list(id_views(t.persistent_team.persistent_player_ids@)).len() as int;
            let f = t.persistent_team.persistent_captain_id@.len() as int;
            let g = enc_player_list(t.players@).len() as int;
            &&& enc_team(t).len() == 136 + a + b + c + d + ee + f + g
            &&& s.subrange(pos, pos + 8) == "{\"_id\":\""@
            &&& s.subrange(pos + 8, pos + 8 + a) == t.id@
            &&& s.subrange(pos + 8 + a, pos + 30 + a) == "\",\"persistentTeamID\":\""@
            &&& s.subrange(pos + 30 + a, pos + 30 + a + b) == t.persistent_team_id@
            &&& s.subrange(pos + 30 + a + b, pos + 58 + a + b)
                == "\",\"persistentTeam\":{\"name\":\""@
            &&& s.subrange(pos + 58 + a + b, pos + 58 + a + b + c) == t.persistent_team.name@
            &&& s.subrange(pos + 58 + a + b + c, pos + 71 + a + b + c) == "\",\"logoUrl\":\""@
            &&& s.subrange(pos + 71 + a + b + c, pos + 71 + a + b + c + d)
                == t.persistent_team.logo_url@
            &&& s.subrange(pos + 71 + a + b + c + d, pos + 96 + a + b + c + d)
                == "\",\"persistentPlayerIDs\":["@
            &&& id_list_encoded_at(
                s,
                pos + 96 + a + b + c + d,
                id_views(t.persistent_team.persistent_player_ids@),
            )
            &&& s.subrange(pos + 96 + a + b + c + d + ee, pos + 121 + a + b + c + d + ee)
                == "],\"persistentCaptainID\":\""@
            &&& s.subrange(
                pos + 121 + a + b + c + d + ee,
                pos + 121 + a + b + c + d + ee + f,
            ) == t.persistent_team.persistent_captain_id@
            &&& s.subrange(
                pos + 121 + a + b + c + d + ee + f,
                pos + 134 + a + b + c + d + ee + f,
            ) == "\",\"players\":["@
            &&& player_list_encoded_at(s, pos + 134 + a + b + c + d + ee + f, t.players@)
            &&& s.subrange(
                pos + 134 + a + b + c + d + ee + f + g,
                pos + 136 + a + b + c + d + ee + f + g,
            ) == "]}"@
            &&& s[pos + 8 + a] == '"'
            &&& s[pos + 30 + a + b] == '"'
            &&& s[pos + 58 + a + b + c] == '"'
            &&& s[pos + 71 + a + b + c + d] == '"'
            &&& s[pos + 121 + a + b + c + d + ee + f] == '"'
            &&& n >= 1 ==> q1 == pos + 8 + a
            &&& n >= 2 ==> q2 == pos + 30 + a + b
            &&& n >= 3 ==> q3 == pos + 58 + a + b + c
            &&& n >= 4 ==> q4 == pos + 71 + a + b + c + d
            &&& n >= 5 ==> q5 == pos + 121 + a + b + c + d + ee + f
        }),
{
    lemma_team_shape(s, pos, t);
    let a = t.id@.len() as int;
    let b = t.persistent_team_id@.len() as int;
    let c = t.persistent_team.name@.len() as int;
    let d = t.persistent_team.logo_url@.len() as int;
    let ee = enc_id_list(id_views(t.persistent_team.persistent_player_ids@)).len() as int;
    if n >= 1 {
        lemma_quote_pins(s, pos + 8, t.id@, q1);
    }
    if n >= 2 {
        lemma_quote_pins(s, pos + 30 + a, t.persistent_team_id@, q2);
    }
    if n >= 3 {
        lemma_quote_pins(s, pos + 58 + a + b, t.persistent_team.name@, q3);
    }
    if n >= 4 {
        lemma_quote_pins(s, pos + 71 + a + b + c, t.persistent_team.logo_url@, q4);
    }
    if n >= 5 {
        lemma_quote_pins(
            s,
            pos + 121 + a + b + c + d + ee,
            t.persistent_team.persistent_captain_id@,
            q5,
        );
    }
}

/// Reads the scalar header of an encoded team record: the two identifiers,
/// the name and the logo, stopping right after the opening of the
/// identifier-list bracket. When the wire text of any wire-clean team stands
/// at `pos`, the read succeeds with that team's header fields.
#[verifier::rlimit(100)]
fn team_header_from_json_at(s: &str, pos: usize) -> (r: Option<
    (String, String, String, String, usize),
>)
    requires
        pos <= s@.len(),
    ensures
        forall|t: Team|
            team_encoded_at(s@, pos as int, t) ==> (r matches Some(w) && w.0@ == t.id@ && w.1@
                == t.persistent_team_id@ && w.2@ == t.persistent_team.name@ && w.3@
                == t.persistent_team.logo_url@ && w.4 == pos + 96 + t.id@.len()
                + t.persistent_team_id@.len() + t.persistent_team.name@.len()
                + t.persistent_team.logo_url@.len()),
        r matches Some(w) ==> {
            &&& pos + 96 + w.0@.len() + w.1@.len() + w.2@.len() + w.3@.len() == w.4
            &&& w.4 <= s@.len()
            &&& clean_str(w.0@) && clean_str(w.1@) && clean_str(w.2@) && clean_str(w.3@)
            &&& s@.subrange(pos as int, pos + 8) == "{\"_id\":\""@
            &&& s@.subrange(pos + 8, pos + 8 + w.0@.len()) == w.0@
            &&& s@.subrange(pos + 8 + w.0@.len(), pos + 30 + w.0@.len())
                == "\",\"persistentTeamID\":\""@
            &&& s@.subrange(pos + 30 + w.0@.len(), pos + 30 + w.0@.len() + w.1@.len()) == w.1@
            &&& s@.subrange(
                pos + 30 + w.0@.len() + w.1@.len(),
                pos + 58 + w.0@.len() + w.1@.len(),
            ) == "\",\"persistentTeam\":{\"name\":\""@
            &&& s@.subrange(
                pos + 58 + w.0@.len() + w.1@.len(),
                pos + 58 + w.0@.len() + w.1@.len() + w.2@.len(),
            ) == w.2@
            &&& s@.subrange(
                pos + 58 + w.0@.len() + w.1@.len() + w.2@.len(),
                pos + 71 + w.0@.len() + w.1@.len() + w.2@.len(),
            ) == "\",\"logoUrl\":\""@
            &&& s@.subrange(
                pos + 71 + w.0@.len() + w.1@.len() + w.2@.len(),
                pos + 71 + w.0@.len() + w.1@.len() + w.2@.len() + w.3@.len(),
            ) == w.3@
            &&& s@.subrange(
                pos + 71 + w.0@.len() + w.1@.len() + w.2@.len() + w.3@.len(),
                pos + 96 + w.0@.len() + w.1@.len() + w.2@.len() + w.3@.len(),
            ) == "\",\"persistentPlayerIDs\":["@
        },
{
    let pos1 = match expect_lit(s, pos, "{\"_id\":\"") {
        Some(v) => v,
        None => {
            proof {
                assert forall|t: Team| !team_encoded_at(s@, pos as int, t) by {
                    if team_encoded_at(s@, pos as int, t) {
                        lemma_team_locate(s@, pos as int, t, 0, 0, 0, 0, 0, 0);
                        reveal_strlit("{\"_id\":\"");
                    }
                }
            }
            return None;
        },
    };
    proof {
        reveal_strlit("{\"_id\":\"");
    }
    let (t1, q1) = match read_to_quote(s, pos1) {
        Some(v) => v,
        None => {
            proof {
                assert forall|t: Team| !team_encoded_at(s@, pos as int, t) by {
                    if team_encoded_at(s@, pos as int, t) {
                        lemma_team_locate(s@, pos as int, t, 0, 0, 0, 0, 0, 0);
                    }
                }
            }
            return None;
        },
    };
    let pos2 = match expect_lit(s, q1, "\",\"persistentTeamID\":\"") {
        Some(v) => v,
        None => {
            proof {
                assert forall|t: Team| !team_encoded_at(s@, pos as int, t) by {
                    if team_encoded_at(s@, pos as int, t) {
                        lemma_team_locate(s@, pos as int, t, 1, q1 as int, 0, 0, 0, 0);
                        reveal_strlit("\",\"persistentTeamID\":\"");
                    }
                }
            }
            return None;
        },
    };
    proof {
        reveal_strlit("\",\"persistentTeamID\":\"");
    }
    let (t2, q2) = match read_to_quote(s, pos2) {
        Some(v) => v,
        None => {
            proof {
                assert forall|t: Team| !team_encoded_at(s@, pos as int, t) by {
                    if team_encoded_at(s@, pos as int, t) {
                        lemma_team_locate(s@, pos as int, t, 1, q1 as int, 0, 0, 0, 0);
                    }
                }
            }
            return None;
        },
    };
    let pos3 = match expect_lit(s, q2, "\",\"persistentTeam\":{\"name\":\"") {
        Some(v) => v,
        None => {
            proof {
                assert forall|t: Team| !team_encoded_at(s@, pos as int, t) by {
                    if team_encoded_at(s@, pos as int, t) {
                        lemma_team_locate(s@, pos as int, t, 2, q1 as int, q2 as int, 0, 0, 0);
                        reveal_strlit("\",\"persistentTeam\":{\"name\":\"");
                    }
                }
            }
            return None;
        },
    };
    proof {
        reveal_strlit("\",\"persistentTeam\":{\"name\":\"");
    }
    let (t3, q3) = match read_to_quote(s, pos3) {
        Some(v) => v,
        None => {
            proof {
                assert forall|t: Team| !team_encoded_at(s@, pos as int, t) by {
                    if team_encoded_at(s@, pos as int, t) {
                        lemma_team_locate(s@, pos as int, t, 2, q1 as int, q2 as int, 0, 0, 0);
                    }
                }
            }
            return None;
        },
    };
    let pos4 = match expect_lit(s, q3, "\",\"logoUrl\":\"") {
        Some(v) => v,
        None => {
            proof {
                assert forall|t: Team| !team_encoded_at(s@, pos as int, t) by {
                    if team_encoded_at(s@, pos as int, t) {
                        lemma_team_locate(
                            s@,
                            pos as int,
                            t,
                            3,
                            q1 as int,
                            q2 as int,
                            q3 as int,
                            0,
                            0,
                        );
                        reveal_strlit("\",\"logoUrl\":\"");
                    }
                }
            }
            return None;
        },
    };
    proof {
        reveal_strlit("\",\"logoUrl\":\"");
    }
    let (t4, q4) = match read_to_quote(s, pos4) {
        Some(v) => v,
        None => {
            proof {
                assert forall|t: Team| !team_encoded_at(s@, pos as int, t) by {
                    if team_encoded_at(s@, pos as int, t) {
                        lemma_team_locate(
                            s@,
                            pos as int,
                            t,
                            3,
                            q1 as int,
                            q2 as int,
                            q3 as int,
                            0,
                            0,
                        );
                    }
                }
            }
            return None;
        },
    };
    let pos5 = match expect_lit(s, q4, "\",\"persistentPlayerIDs\":[") {
        Some(v) => v,
        None => {
            proof {
                assert forall|t: Team| !team_encoded_at(s@, pos as int, t) by {
                    if team_encoded_at(s@, pos as int, t) {
                        lemma_team_locate(
                            s@,
                            pos as int,
                            t,
                            4,
                            q1 as int,
                            q2 as int,
                            q3 as int,
                            q4 as int,
                            0,
                        );
                        reveal_strlit("\",\"persistentPlayerIDs\":[");
                    }
                }
            }
            return None;
        },
    };
    proof {
        reveal_strlit("\",\"persistentPlayerIDs\":[");
        assert forall|t: Team|
            team_encoded_at(s@, pos as int, t) implies (t1@ == t.id@ && t2@
            == t.persistent_team_id@ && t3@ == t.persistent_team.name@ && t4@
            == t.persistent_team.logo_url@ && pos5 == pos + 96 + t.id@.len()
            + t.persistent_team_id@.len() + t.persistent_team.name@.len()
            + t.persistent_team.logo_url@.len()) by {
            lemma_team_locate(
                s@,
                pos as int,
                t,
                4,
                q1 as int,
                q2 as int,
                q3 as int,
                q4 as int,
                0,
            );
        }
        assert forall|i: int| 0 <= i < t1@.len() implies t1@[i] != '"' by {
            assert(t1@[i] == s@.subrange(pos1 as int, q1 as int)[i]);
        }
        assert forall|i: int| 0 <= i < t2@.len() implies t2@[i] != '"' by {
            assert(t2@[i] == s@.subrange(pos2 as int, q2 as int)[i]);
        }
        assert forall|i: int| 0 <= i < t3@.len() implies t3@[i] != '"' by {
            assert(t3@[i] == s@.subrange(pos3 as int, q3 as int)[i]);
        }
        assert forall|i: int| 0 <= i < t4@.len() implies t4@[i] != '"' by {
            assert(t4@[i] == s@.subrange(pos4 as int, q4 as int)[i]);
        }
    }
    Some((t1, t2, t3, t4, pos5))
}

/// Reads one canonically encoded team record starting at `pos`. When the
/// wire text of any wire-clean team stands there, the read succeeds and
/// returns a record carrying the same data — identifiers, header fields and
/// roster; whatever is returned re-encodes to exactly the span that was
/// read.
#[verifier::rlimit(100)]
pub fn team_from_json_at(s: &str, pos: usize) -> (r: Option<(Team, usize)>)
    requires
        pos <= s@.len(),
    ensures
        forall|t: Team|
            team_encoded_at(s@, pos as int, t) ==> (r matches Some(w) && team_data_eq(w.0, t)
                && w.1 == pos + enc_team(t).len()),
        r matches Some(w) ==> {
            &&& pos < w.1 <= s@.len()
            &&& clean_team(w.0)
            &&& s@.subrange(pos as int, w.1 as int) == enc_team(w.0)
        },
{
    let (t1, t2, t3, t4, pos5) = match team_header_from_json_at(s, pos) {
        Some(v) => v,
        None => {
            return None;
        },
    };
    let (ids, e1) = match id_list_from_json_at(s, pos5) {
        Some(v) => v,
        None => {
            proof {
                assert forall|t: Team| !team_encoded_at(s@, pos as int, t) by {
                    if team_encoded_at(s@, pos as int, t) {
                        lemma_team_shape(s@, pos as int, t);
                        assert(id_list_encoded_at(
                            s@,
                            pos5 as int,
                            id_views(t.persistent_team.persistent_player_ids@),
                        ));
                    }
                }
            }
            return None;
        },
    };
    let pos6 = match expect_lit(s, e1, "],\"persistentCaptainID\":\"") {
        Some(v) => v,
        None => {
            proof {
                assert forall|t: Team| !team_encoded_at(s@, pos as int, t) by {
                    if team_encoded_at(s@, pos as int, t) {
                        lemma_team_shape(s@, pos as int, t);
                        assert(id_list_encoded_at(
                            s@,
                            pos5 as int,
                            id_views(t.persistent_team.persistent_player_ids@),
                        ));
                        reveal_strlit("],\"persistentCaptainID\":\"");
                    }
                }
            }
            return None;
        },
    };
    proof {
        reveal_strlit("],\"persistentCaptainID\":\"");
    }
    let (t5, q5) = match read_to_quote(s, pos6) {
        Some(v) => v,
        None => {
            proof {
                assert forall|t: Team| !team_encoded_at(s@, pos as int, t) by {
                    if team_encoded_at(s@, pos as int, t) {
                        lemma_team_shape(s@, pos as int, t);
                        assert(id_list_encoded_at(
                            s@,
                            pos5 as int,
                            id_views(t.persistent_team.persistent_player_ids@),
                        ));
                    }
                }
            }
            return None;
        },
    };
    let pos7 = match expect_lit(s, q5, "\",\"players\":[") {
        Some(v) => v,
        None => {
            proof {
                assert forall|t: Team| !team_encoded_at(s@, pos as int, t) by {
                    if team_encoded_at(s@, pos as int, t) {
                        lemma_team_shape(s@, pos as int, t);
                        assert(id_list_encoded_at(
                            s@,
                            pos5 as int,
                            id_views(t.persistent_team.persistent_player_ids@),
                        ));
                        lemma_quote_pins(
                            s@,
                            pos6 as int,
                            t.persistent_team.persistent_captain_id@,
                            q5 as int,
                        );
                        reveal_strlit("\",\"players\":[");
                    }
                }
            }
            return None;
        },
    };
    proof {
        reveal_strlit("\",\"players\":[");
    }
    let (pls, e2) = match player_list_from_json_at(s, pos7) {
        Some(v) => v,
        None => {
            proof {
                assert forall|t: Team| !team_encoded_at(s@, pos as int, t) by {
                    if team_encoded_at(s@, pos as int, t) {
                        lemma_team_shape(s@, pos as int, t);
                        assert(id_list_encoded_at(
                            s@,
                            pos5 as int,
                            id_views(t.persistent_team.persistent_player_ids@),
                        ));
                        lemma_quote_pins(
                            s@,
                            pos6 as int,
                            t.persistent_team.persistent_captain_id@,
                            q5 as int,
                        );
                        assert(player_list_encoded_at(s@, pos7 as int, t.players@));
                    }
                }
            }
            return None;
        },
    };
    let np = match expect_lit(s, e2, "]}") {
        Some(v) => v,
        None => {
            proof {
                assert forall|t: Team| !team_encoded_at(s@, pos as int, t) by {
                    if team_encoded_at(s@, pos as int, t) {
                        lemma_team_shape(s@, pos as int, t);
                        assert(id_list_encoded_at(
                            s@,
                            pos5 as int,
                            id_views(t.persistent_team.persistent_player_ids@),
                        ));
                        lemma_quote_pins(
                            s@,
                            pos6 as int,
                            t.persistent_team.persistent_captain_id@,
                            q5 as int,
                        );
                        assert(player_list_encoded_at(s@, pos7 as int, t.players@));
                        reveal_strlit("]}");
                    }
                }
            }
            return None;
        },
    };
    proof {
        reveal_strlit("]}");
    }
    let q = Team {
        id: t1,
        persistent_team_id: t2,
        persistent_team: PersistentTeam {
            name: t3,
            logo_url: t4,
            persistent_player_ids: ids,
            persistent_captain_id: t5,
        },
        players: pls,
    };
    proof {
        assert forall|t: Team|
            team_encoded_at(s@, pos as int, t) implies (team_data_eq(q, t) && np == pos
            + enc_team(t).len()) by {
            lemma_team_shape(s@, pos as int, t);
            assert(id_list_encoded_at(
                s@,
                pos5 as int,
                id_views(t.persistent_team.persistent_player_ids@),
            ));
            lemma_quote_pins(s@, pos6 as int, t.persistent_team.persistent_captain_id@, q5 as int);
            assert(player_list_encoded_at(s@, pos7 as int, t.players@));
        }
        assert forall|i: int| 0 <= i < t5@.len() implies t5@[i] != '"' by {
            assert(t5@[i] == s@.subrange(pos6 as int, q5 as int)[i]);
        }
        assert(e1 == pos5 + enc_id_list(id_views(ids@)).len());
        assert(q5 == pos6 + t5@.len());
        assert(e2 == pos7 + enc_player_list(pls@).len());
        lemma_team_assemble(s@, pos as int, q);
        assert(s@.subrange(pos as int, np as int) == enc_team(q));
    }
    Some((q, np))
}



/// The wire text of a (wire-clean) match record stands at `pos` in `s`.
pub open spec fn match_encoded_at(s: Seq<char>, pos: int, m: Match) -> bool {
    &&& clean_match(m)
    &&& 0 <= pos
    &&& pos + enc_match(m).len() <= s.len()
    &&& s.subrange(pos, pos + enc_match(m).len()) == enc_match(m)
}

/// Where each piece of an encoded match record stands, and how long the
/// whole text is.
#[verifier::rlimit(100)]
proof fn lemma_match_shape(s: Seq<char>, pos: int, m: Match)
    requires
        match_encoded_at(s, pos, m),
    ensures
        ({
            let a = m.id@.len() as int;
            let e1 = enc_team(m.top.team).len() as int;
            let e2 = enc_team(m.bottom.team).len() as int;
            &&& enc_match(m).len() == 45 + a + e1 + e2
            &&& s.subrange(pos, pos + 8) == "{\"_id\":\""@
            &&& s.subrange(pos + 8, pos + 8 + a) == m.id@
            &&& s[pos + 8 + a] == '"'
            &&& s.subrange(pos + 8 + a, pos + 24 + a) == "\",\"top\":{\"team\":"@
            &&& team_encoded_at(s, pos + 24 + a, m.top.team)
            &&& s.subrange(pos + 24 + a + e1, pos + 43 + a + e1) == "},\"bottom\":{\"team\":"@
            &&& team_encoded_at(s, pos + 43 + a + e1, m.bottom.team)
            &&& s.subrange(pos + 43 + a + e1 + e2, pos + 45 + a + e1 + e2) == "}}"@
        }),
{
    reveal_strlit("{\"_id\":\"");
    reveal_strlit("\",\"top\":{\"team\":");
    reveal_strlit("},\"bottom\":{\"team\":");
    reveal_strlit("}}");
    let l1 = "{\"_id\":\""@;
    let l2 = "\",\"top\":{\"team\":"@;
    let l3 = "},\"bottom\":{\"team\":"@;
    let l4 = "}}"@;
    let v1 = m.id@;
    let e1 = enc_team(m.top.team);
    let e2 = enc_team(m.bottom.team);
    let a = v1.len() as int;
    let r2 = v1 + (l2 + (e1 + (l3 + (e2 + l4))));
    let r3 = l2 + (e1 + (l3 + (e2 + l4)));
    let r4 = e1 + (l3 + (e2 + l4));
    let r5 = l3 + (e2 + l4);
    let r6 = e2 + l4;
    lemma_split_at(s, pos, l1, r2);
    lemma_split_at(s, pos + 8, v1, r3);
    lemma_split_at(s, pos + 8 + a, l2, r4);
    lemma_split_at(s, pos + 24 + a, e1, r5);
    lemma_split_at(s, pos + 24 + a + e1.len(), l3, r6);
    lemma_split_at(s, pos + 43 + a + e1.len(), e2, l4);
    assert(s[pos + 8 + a] == s.subrange(pos + 8 + a, pos + 24 + a)[0]);
}

/// The converse of [`lemma_match_shape`]: pieces standing in their places
/// assemble into one encoded match record.
#[verifier::rlimit(100)]
proof fn lemma_match_assemble(s: Seq<char>, pos: int, q: Match)
    requires
        ({
            let a = q.id@.len() as int;
            let e1 = enc_team(q.top.team).len() as int;
            let e2 = enc_team(q.bottom.team).len() as int;
            &&& 0 <= pos
            &&& pos + 45 + a + e1 + e2 <= s.len()
            &&& s.subrange(pos, pos + 8) == "{\"_id\":\""@
            &&& s.subrange(pos + 8, pos + 8 + a) == q.id@
            &&& s.subrange(pos + 8 + a, pos + 24 + a) == "\",\"top\":{\"team\":"@
            &&& s.subrange(pos + 24 + a, pos + 24 + a + e1) == enc_team(q.top.team)
            &&& s.subrange(pos + 24 + a + e1, pos + 43 + a + e1) == "},\"bottom\":{\"team\":"@
            &&& s.subrange(pos + 43 + a + e1, pos + 43 + a + e1 + e2) == enc_team(q.bottom.team)
            &&& s.subrange(pos + 43 + a + e1 + e2, pos + 45 + a + e1 + e2) == "}}"@
        }),
    ensures
        enc_match(q).len() == 45 + q.id@.len() + enc_team(q.top.team).len() + enc_team(
            q.bottom.team,
        ).len(),
        s.subrange(
            pos,
            pos + 45 + q.id@.len() + enc_team(q.top.team).len() + enc_team(q.bottom.team).len(),
        ) == enc_match(q),
{
    reveal_strlit("{\"_id\":\"");
    reveal_strlit("\",\"top\":{\"team\":");
    reveal_strlit("},\"bottom\":{\"team\":");
    reveal_strlit("}}");
    let l1 = "{\"_id\":\""@;
    let l2 = "\",\"top\":{\"team\":"@;
    let l3 = "},\"bottom\":{\"team\":"@;
    let l4 = "}}"@;
    let v1 = q.id@;
    let e1 = enc_team(q.top.team);
    let e2 = enc_team(q.bottom.team);
    let a = v1.len() as int;
    let np = pos + 45 + a + e1.len() + e2.len();
    assert(s.subrange(pos + 43 + a + e1.len(), np) =~= e2 + l4);
    assert(s.subrange(pos + 24 + a + e1.len(), np) =~= l3 + (e2 + l4));
    assert(s.subrange(pos + 24 + a, np) =~= e1 + (l3 + (e2 + l4)));
    assert(s.subrange(pos + 8 + a, np) =~= l2 + (e1 + (l3 + (e2 + l4))));
    assert(s.subrange(pos + 8, np) =~= v1 + (l2 + (e1 + (l3 + (e2 + l4)))));
    assert(s.subrange(pos, np) =~= l1 + (v1 + (l2 + (e1 + (l3 + (e2 + l4))))));
}

/// Reads the identifier header of an encoded match record, stopping right
/// after the opening of the top slot. When the wire text of any wire-clean
/// match stands at `pos`, the read succeeds with that match's identifier.
#[verifier::rlimit(100)]
fn match_header_from_json_at(s: &str, pos: usize) -> (r: Option<(String, usize)>)
    requires
        pos <= s@.len(),
    ensures
        forall|m: Match|
            match_encoded_at(s@, pos as int, m) ==> (r matches Some(w) && w.0@ == m.id@ && w.1
                == pos + 24 + m.id@.len()),
        r matches Some(w) ==> {
            &&& pos + 24 + w.0@.len() == w.1
            &&& w.1 <= s@.len()
            &&& clean_str(w.0@)
            &&& s@.subrange(pos as int, pos + 8) == "{\"_id\":\""@
            &&& s@.subrange(pos + 8, pos + 8 + w.0@.len()) == w.0@
            &&& s@.subrange(pos + 8 + w.0@.len(), pos + 24 + w.0@.len())
                == "\",\"top\":{\"team\":"@
        },
{
    let pos1 = match expect_lit(s, pos, "{\"_id\":\"") {
        Some(v) => v,
        None => {
            proof {
                assert forall|m: Match| !match_encoded_at(s@, pos as int, m) by {
                    if match_encoded_at(s@, pos as int, m) {
                        lemma_match_shape(s@, pos as int, m);
                        reveal_strlit("{\"_id\":\"");
                    }
                }
            }
            return None;
        },
    };
    proof {
        reveal_strlit("{\"_id\":\"");
    }
    let (t1, q1) = match read_to_quote(s, pos1) {
        Some(v) => v,
        None => {
            proof {
                assert forall|m: Match| !match_encoded_at(s@, pos as int, m) by {
                    if match_encoded_at(s@, pos as int, m) {
                        lemma_match_shape(s@, pos as int, m);
                    }
                }
            }
            return None;
        },
    };
    let pos2 = match expect_lit(s, q1, "\",\"top\":{\"team\":") {
        Some(v) => v,
        None => {
            proof {
                assert forall|m: Match| !match_encoded_at(s@, pos as int, m) by {
                    if match_encoded_at(s@, pos as int, m) {
                        lemma_match_shape(s@, pos as int, m);
                        lemma_quote_pins(s@, pos as int + 8, m.id@, q1 as int);
                        reveal_strlit("\",\"top\":{\"team\":");
                    }
                }
            }
            return None;
        },
    };
    proof {
        reveal_strlit("\",\"top\":{\"team\":");
        assert forall|m: Match|
            match_encoded_at(s@, pos as int, m) implies (t1@ == m.id@ && pos2 == pos + 24
            + m.id@.len()) by {
            lemma_match_shape(s@, pos as int, m);
            lemma_quote_pins(s@, pos as int + 8, m.id@, q1 as int);
        }
        assert forall|i: int| 0 <= i < t1@.len() implies t1@[i] != '"' by {
            assert(t1@[i] == s@.subrange(pos1 as int, q1 as int)[i]);
        }
    }
    Some((t1, pos2))
}

/// Reads one canonically encoded match record starting at `pos`. When the
/// wire text of any wire-clean match stands there, the read succeeds and
/// returns a record carrying the same data in both slots, with the side
/// flag cleared; whatever is returned re-encodes to exactly the span that
/// was read.
#[verifier::rlimit(100)]
#[verifier::spinoff_prover]
pub fn match_from_json_at(s: &str, pos: usize) -> (r: Option<(Match, usize)>)
    requires
        pos <= s@.len(),
    ensures
        forall|m: Match|
            match_encoded_at(s@, pos as int, m) ==> (r matches Some(w) && match_data_eq(w.0, m)
                && w.0.is_top == false && w.1 == pos + enc_match(m).len()),
        r matches Some(w) ==> {
            &&& pos < w.1 <= s@.len()
            &&& clean_match(w.0)
            &&& s@.subrange(pos as int, w.1 as int) == enc_match(w.0)
        },
{
    let (t1, pos2) = match match_header_from_json_at(s, pos) {
        Some(v) => v,
        None => {
            return None;
        },
    };
    let (top, e1) = match team_from_json_at(s, pos2) {
        Some(v) => v,
        None => {
            proof {
                assert forall|m: Match| !match_encoded_at(s@, pos as int, m) by {
                    if match_encoded_at(s@, pos as int, m) {
                        lemma_match_shape(s@, pos as int, m);
                        assert(team_encoded_at(s@, pos2 as int, m.top.team));
                    }
                }
            }
            return None;
        },
    };
    let pos3 = match expect_lit(s, e1, "},\"bottom\":{\"team\":") {
        Some(v) => v,
        None => {
            proof {
                assert forall|m: Match| !match_encoded_at(s@, pos as int, m) by {
                    if match_encoded_at(s@, pos as int, m) {
                        lemma_match_shape(s@, pos as int, m);
                        assert(team_encoded_at(s@, pos2 as int, m.top.team));
                        reveal_strlit("},\"bottom\":{\"team\":");
                    }
                }
            }
            return None;
        },
    };
    proof {
        reveal_strlit("},\"bottom\":{\"team\":");
    }
    let (bottom, e2) = match team_from_json_at(s, pos3) {
        Some(v) => v,
        None => {
            proof {
                assert forall|m: Match| !match_encoded_at(s@, pos as int, m) by {
                    if match_encoded_at(s@, pos as int, m) {
                        lemma_match_shape(s@, pos as int, m);
                        assert(team_encoded_at(s@, pos2 as int, m.top.team));
                        assert(team_encoded_at(s@, pos3 as int, m.bottom.team));
                    }
                }
            }
            return None;
        },
    };
    let np = match expect_lit(s, e2, "}}") {
        Some(v) => v,
        None => {
            proof {
                assert forall|m: Match| !match_encoded_at(s@, pos as int, m) by {
                    if match_encoded_at(s@, pos as int, m) {
                        lemma_match_shape(s@, pos as int, m);
                        assert(team_encoded_at(s@, pos2 as int, m.top.team));
                        assert(team_encoded_at(s@, pos3 as int, m.bottom.team));
                        reveal_strlit("}}");
                    }
                }
            }
            return None;
        },
    };
    proof {
        reveal_strlit("}}");
    }
    let q = Match {
        id: t1,
        top: MatchTeam { team: top },
        bottom: MatchTeam { team: bottom },
        is_top: false,
    };
    proof {
        assert forall|m: Match|
            match_encoded_at(s@, pos as int, m) implies (match_data_eq(q, m) && q.is_top == false
            && np == pos + enc_match(m).len()) by {
            lemma_match_shape(s@, pos as int, m);
            assert(team_encoded_at(s@, pos2 as int, m.top.team));
            assert(team_encoded_at(s@, pos3 as int, m.bottom.team));
            assert(pos2 == pos + 24 + m.id@.len());
            assert(e1 == pos2 + enc_team(m.top.team).len());
            assert(pos3 == e1 + 19);
            assert(e2 == pos3 + enc_team(m.bottom.team).len());
            assert(np == e2 + 2);
            assert(enc_match(m).len() == 45 + m.id@.len() + enc_team(m.top.team).len()
                + enc_team(m.bottom.team).len());
        }
    }
    proof {
        assert(pos2 == pos as int + 24 + t1@.len());
        assert(e1 == pos2 + enc_team(top).len());
        assert(e2 == pos3 + enc_team(bottom).len());
        lemma_match_assemble(s@, pos as int, q);
        assert(s@.subrange(pos as int, np as int) == enc_match(q));
        assert(clean_match(q));
    }
    Some((q, np))
}

/// Reads a whole string as one canonically encoded team record: succeeds
/// exactly on the full wire text of a wire-clean team, and then returns a
/// record carrying the same data. Together with [`team_to_json`]: encoding a
/// wire-clean team and decoding the text gives the team's data back —
/// persistent identifiers and roster membership included.
pub fn team_from_json(s: &str) -> (r: Option<Team>)
    ensures
        forall|t: Team|
            (clean_team(t) && s@ == enc_team(t)) ==> (r matches Some(q) && team_data_eq(q, t)),
        r matches Some(q) ==> clean_team(q) && s@ == enc_team(q),
{
    proof {
        assert forall|t: Team|
            clean_team(t) && s@ == enc_team(t) implies team_encoded_at(s@, 0, t) by {
            assert(s@.subrange(0, s@.len() as int) =~= s@);
        }
    }
    match team_from_json_at(s, 0) {
        Some((q, np)) => {
            if np == s.unicode_len() {
                proof {
                    assert(s@.subrange(0, np as int) =~= s@);
                }
                Some(q)
            } else {
                None
            }
        },
        None => None,
    }
}

/// Reads a whole string as one canonically encoded match record: succeeds
/// exactly on the full wire text of a wire-clean match, and then returns a
/// record carrying the same data, with the transient side flag cleared.
/// Together with [`match_to_json`]: encoding a wire-clean match and decoding
/// the text gives the match's data back — both teams' persistent identifiers
/// and rosters included.
pub fn match_from_json(s: &str) -> (r: Option<Match>)
    ensures
        forall|m: Match|
            (clean_match(m) && s@ == enc_match(m)) ==> (r matches Some(q) && match_data_eq(q, m)
                && q.is_top == false),
        r matches Some(q) ==> clean_match(q) && s@ == enc_match(q),
{
    proof {
        assert forall|m: Match|
            clean_match(m) && s@ == enc_match(m) implies match_encoded_at(s@, 0, m) by {
            assert(s@.subrange(0, s@.len() as int) =~= s@);
        }
    }
    match match_from_json_at(s, 0) {
        Some((q, np)) => {
            if np == s.unicode_len() {
                proof {
                    assert(s@.subrange(0, np as int) =~= s@);
                }
                Some(q)
            } else {
                None
            }
        },
        None => None,
    }
}

/// Reads a whole string as one canonically encoded player record: succeeds
/// exactly on the full wire text of a wire-clean player, and then returns a
/// record carrying the same data. Together with [`player_to_json`]: encoding
/// a wire-clean player and decoding the text gives the player's data back.
pub fn player_from_json(s: &str) -> (r: Option<Player>)
    ensures
        forall|p: Player|
            (clean_player(p) && s@ == enc_player(p)) ==> (r matches Some(q) && player_data_eq(
                q,
                p,
            )),
        r matches Some(q) ==> clean_player(q) && s@ == enc_player(q),
{
    proof {
        assert forall|p: Player|
            clean_player(p) && s@ == enc_player(p) implies player_encoded_at(s@, 0, p) by {
            assert(s@.subrange(0, s@.len() as int) =~= s@);
        }
    }
    match player_from_json_at(s, 0) {
        Some((q, np)) => {
            if np == s.unicode_len() {
                proof {
                    assert(s@.subrange(0, np as int) =~= s@);
                }
                Some(q)
            } else {
                None
            }
        },
        None => None,
    }
}

} // verus!
