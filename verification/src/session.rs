//! Saved chat sessions: what a session holds, how its file is named, how
//! saved sessions are found, listed newest first, and which one is latest.
use vstd::prelude::*;

use crate::model::{ChatMessage};
use crate::text::{
    append_chars, char_is_alphanumeric, contains, decimal, from_chars, has_substring,
    is_alphanumeric, opt_view, str_to_string, to_chars, u64_to_string,
};
use crate::util::unix_now_secs;

verus! {

broadcast use vstd::string::group_string_axioms;

pub struct Session {
    pub id: String,
    pub name: Option<String>,
    pub created_at: String,
    pub messages: Vec<ChatMessage>,
    pub plan: Option<String>,
    pub mode: String,
}

/// A saved session as listed: its identity and size, without its messages.
pub struct SessionInfo {
    pub id: String,
    pub name: Option<String>,
    pub created_at: String,
    pub message_count: usize,
    pub mode: String,
}

/// A listed session as plain values.
pub struct SessionInfoView {
    pub id: Seq<char>,
    pub name: Option<Seq<char>>,
    pub created_at: Seq<char>,
    pub message_count: usize,
    pub mode: Seq<char>,
}

impl View for SessionInfo {
    type V = SessionInfoView;

    open spec fn view(&self) -> SessionInfoView {
        SessionInfoView {
            id: self.id@,
            name: opt_view(self.name),
            created_at: self.created_at@,
            message_count: self.message_count,
            mode: self.mode@,
        }
    }
}

pub open spec fn info_views(v: Seq<SessionInfo>) -> Seq<SessionInfoView> {
    v.map_values(|x: SessionInfo| x@)
}

/// The time stamp text of a number of seconds: its decimal digits.
pub open spec fn time_text(secs: nat) -> Seq<char> {
    decimal(secs)
}

/// The time stamp text of a number of seconds.
pub fn chrono_fmt(secs: u64) -> (r: String)
    ensures
        r@ == time_text(secs as nat),
{
    u64_to_string(secs)
}

impl Session {
    /// An empty chat session made at `secs` seconds after the Unix epoch: its
    /// id and creation time are that number, its mode is `chat`.
    pub fn at(secs: u64) -> (s: Self)
        ensures
            s.id@ == decimal(secs as nat),
            s.name is None,
            s.created_at@ == time_text(secs as nat),
            s.messages@.len() == 0,
            s.plan is None,
            s.mode@ == "chat"@,
    {
        Session {
            id: u64_to_string(secs),
            name: None,
            created_at: chrono_fmt(secs),
            messages: Vec::new(),
            plan: None,
            mode: str_to_string("chat"),
        }
    }

    /// An empty chat session made now (see `at`).
    pub fn new() -> (s: Self)
        ensures
            exists|t: u64| s.id@ == decimal(t as nat) && s.created_at@ == time_text(t as nat),
            s.name is None,
            s.messages@.len() == 0,
            s.plan is None,
            s.mode@ == "chat"@,
    {
        let t = unix_now_secs();
        Session::at(t)
    }

    /// What the session list shows of this session.
    pub fn info(self) -> (i: SessionInfo)
        ensures
            i.id == self.id,
            i.name == self.name,
            i.created_at == self.created_at,
            i.message_count == self.messages@.len(),
            i.mode == self.mode,
    {
        let n = self.messages.len();
        SessionInfo {
            id: self.id,
            name: self.name,
            created_at: self.created_at,
            message_count: n,
            mode: self.mode,
        }
    }
}

/// A character kept in a file name: alphanumeric, `-` or `_`.
pub open spec fn name_char_kept(c: char) -> bool {
    is_alphanumeric(c) || c == '-' || c == '_'
}

/// A session name made safe for a file name: every other character becomes `_`.
pub open spec fn sanitized(name: Seq<char>) -> Seq<char> {
    name.map_values(|c: char| if name_char_kept(c) { c } else { '_' })
}

pub fn sanitize_name(name: &str) -> (r: String)
    ensures
        r@ == sanitized(name@),
{
    let cs = to_chars(name);
    let mut out: Vec<char> = Vec::new();
    let mut i: usize = 0;
    while i < cs.len()
        invariant
            i <= cs@.len(),
            cs@ == name@,
            out@ == sanitized(cs@.take(i as int)),
        decreases cs.len() - i,
    {
        let c = cs[i];
        if char_is_alphanumeric(c) || c == '-' || c == '_' {
            out.push(c);
        } else {
            out.push('_');
        }
        i = i + 1;
        assert(out@ =~= sanitized(cs@.take(i as int)));
    }
    assert(cs@.take(cs@.len() as int) =~= cs@);
    from_chars(&out)
}

/// The file a session is saved in: `<id>_<sanitized name>.json`, or
/// `<id>.json` for a session without a name.
pub open spec fn session_file_spec(id: Seq<char>, name: Option<Seq<char>>) -> Seq<char> {
    match name {
        Some(n) => id + "_"@ + sanitized(n) + ".json"@,
        None => id + ".json"@,
    }
}

pub fn session_file_name(session: &Session) -> (r: String)
    ensures
        r@ == session_file_spec(session.id@, opt_view(session.name)),
{
    let mut v = to_chars(session.id.as_str());
    match &session.name {
        Some(n) => {
            append_chars(&mut v, &to_chars("_"));
            append_chars(&mut v, &to_chars(sanitize_name(n.as_str()).as_str()));
        },
        None => {},
    }
    append_chars(&mut v, &to_chars(".json"));
    from_chars(&v)
}

/// Whether a saved file's stem answers a request for `query`: the stem equals
/// it or contains it.
pub fn stem_matches(stem: &str, query: &str) -> (r: bool)
    ensures
        r == (stem@ == query@ || has_substring(stem@, query@)),
{
    let s = to_chars(stem);
    let q = to_chars(query);
    let r = contains(&s, &q);
    proof {
        if stem@ =~= query@ {
            assert(stem@.subrange(0int, 0int + query@.len()) =~= query@);
            assert(has_substring(stem@, query@));
        }
    }
    r
}

// ── Ordering of session ids ──

/// Whether `a` comes before `b` in the order of strings (character by
/// character, by code point, a proper prefix first).
pub open spec fn text_less(a: Seq<char>, b: Seq<char>) -> bool
    decreases a.len(),
{
    if b.len() == 0 {
        false
    } else if a.len() == 0 {
        true
    } else if a[0] != b[0] {
        (a[0] as u32) < (b[0] as u32)
    } else {
        text_less(a.drop_first(), b.drop_first())
    }
}

pub proof fn lemma_text_less_irreflexive(a: Seq<char>)
    ensures
        !text_less(a, a),
    decreases a.len(),
{
    if a.len() > 0 {
        lemma_text_less_irreflexive(a.drop_first());
    }
}

pub proof fn lemma_text_less_asymmetric(a: Seq<char>, b: Seq<char>)
    ensures
        !(text_less(a, b) && text_less(b, a)),
    decreases a.len(),
{
    if a.len() > 0 && b.len() > 0 && a[0] == b[0] {
        lemma_text_less_asymmetric(a.drop_first(), b.drop_first());
    }
}

pub proof fn lemma_text_less_transitive(a: Seq<char>, b: Seq<char>, c: Seq<char>)
    requires
        text_less(a, b),
        text_less(b, c),
    ensures
        text_less(a, c),
    decreases a.len(),
{
    if a.len() > 0 && b.len() > 0 && c.len() > 0 && a[0] == b[0] && b[0] == c[0] {
        lemma_text_less_transitive(a.drop_first(), b.drop_first(), c.drop_first());
    }
}

/// Whether the text of `a` comes before that of `b`.
pub fn text_lt(a: &str, b: &str) -> (r: bool)
    ensures
        r == text_less(a@, b@),
{
    let x = to_chars(a);
    let y = to_chars(b);
    let mut i: usize = 0;
    assert(x@.skip(0) =~= x@);
    assert(y@.skip(0) =~= y@);
    while i < x.len() && i < y.len()
        invariant
            i <= x@.len(),
            i <= y@.len(),
            x@ == a@,
            y@ == b@,
            text_less(x@, y@) == text_less(x@.skip(i as int), y@.skip(i as int)),
        decreases x.len() - i,
    {
        let ghost xs = x@.skip(i as int);
        let ghost ys = y@.skip(i as int);
        assert(xs[0] == x@[i as int]);
        assert(ys[0] == y@[i as int]);
        assert(xs.len() > 0 && ys.len() > 0);
        if x[i] != y[i] {
            assert(text_less(xs, ys) == ((xs[0] as u32) < (ys[0] as u32)));
            return (x[i] as u32) < (y[i] as u32);
        }
        assert(xs.drop_first() =~= x@.skip(i as int + 1));
        assert(ys.drop_first() =~= y@.skip(i as int + 1));
        i = i + 1;
    }
    i < y.len()
}

// ── Listing newest first ──

/// `s` with `x` placed after every entry whose id is not before its own.
pub open spec fn insert_newest_first(s: Seq<SessionInfoView>, x: SessionInfoView) -> Seq<SessionInfoView>
    decreases s.len(),
{
    if s.len() == 0 {
        seq![x]
    } else if text_less(s[0].id, x.id) {
        seq![x] + s
    } else {
        seq![s[0]] + insert_newest_first(s.drop_first(), x)
    }
}

/// The sessions by descending id; sessions with the same id keep their order.
pub open spec fn newest_first(s: Seq<SessionInfoView>) -> Seq<SessionInfoView>
    decreases s.len(),
{
    if s.len() == 0 {
        seq![]
    } else {
        insert_newest_first(newest_first(s.drop_last()), s.last())
    }
}

proof fn lemma_insert_split(s: Seq<SessionInfoView>, x: SessionInfoView, k: int)
    requires
        0 <= k <= s.len(),
        forall|j: int| 0 <= j < k ==> !text_less(#[trigger] s[j].id, x.id),
    ensures
        insert_newest_first(s, x) == s.take(k) + insert_newest_first(s.skip(k), x),
    decreases k,
{
    if k > 0 {
        lemma_insert_split(s.drop_first(), x, k - 1);
        assert(s.drop_first().take(k - 1) =~= s.take(k).drop_first());
        assert(s.drop_first().skip(k - 1) =~= s.skip(k));
        assert(s.take(k) =~= seq![s[0]] + s.take(k).drop_first());
    } else {
        assert(s.take(0) =~= Seq::<SessionInfoView>::empty());
        assert(s.skip(0) =~= s);
    }
}

fn insert_info(v: &mut Vec<SessionInfo>, x: SessionInfo)
    ensures
        info_views(final(v)@) == insert_newest_first(info_views(old(v)@), x@),
{
    let ghost s = info_views(v@);
    let mut k: usize = 0;
    while k < v.len() && !text_lt(v[k].id.as_str(), x.id.as_str())
        invariant
            k <= v@.len(),
            s == info_views(v@),
            forall|j: int| 0 <= j < k ==> !text_less(#[trigger] s[j].id, x@.id),
        decreases v.len() - k,
    {
        k = k + 1;
    }
    proof {
        lemma_insert_split(s, x@, k as int);
        if k < s.len() {
            assert(s.skip(k as int)[0] == s[k as int]);
            assert(insert_newest_first(s.skip(k as int), x@) == seq![x@] + s.skip(k as int));
        } else {
            assert(s.skip(k as int) =~= Seq::<SessionInfoView>::empty());
        }
    }
    let ghost xv = x@;
    v.insert(k, x);
    assert(info_views(v@) =~= s.take(k as int) + (seq![xv] + s.skip(k as int)));
}

/// The listed sessions newest first: by descending id, sessions with the same
/// id in their given order.
pub fn sort_newest_first(v: Vec<SessionInfo>) -> (r: Vec<SessionInfo>)
    ensures
        info_views(r@) == newest_first(info_views(v@)),
{
    let ghost s = info_views(v@);
    let mut rest = v;
    let mut out: Vec<SessionInfo> = Vec::new();
    let mut i: usize = 0;
    let n = rest.len();
    while rest.len() > 0
        invariant
            i + rest@.len() == n,
            n == s.len(),
            info_views(rest@) == s.skip(i as int),
            info_views(out@) == newest_first(s.take(i as int)),
        decreases rest.len(),
    {
        let ghost before = rest@;
        let x = rest.remove(0);
        proof {
            assert(rest@ =~= before.drop_first());
            assert(info_views(rest@) =~= info_views(before).drop_first());
            assert(s.skip(i as int).drop_first() =~= s.skip(i as int + 1));
            assert(s.skip(i as int)[0] == x@);
            assert(s.take(i as int + 1).drop_last() =~= s.take(i as int));
            assert(s.take(i as int + 1).last() == x@);
        }
        insert_info(&mut out, x);
        i = i + 1;
        assert(info_views(rest@) =~= s.skip(i as int));
    }
    assert(s.take(n as int) =~= s);
    out
}

/// Listing newest first puts no session after one with a smaller id.
pub proof fn law_newest_first_sorted(s: Seq<SessionInfoView>, i: int, j: int)
    requires
        0 <= i < j < newest_first(s).len(),
    ensures
        !text_less(newest_first(s)[i].id, newest_first(s)[j].id),
    decreases s.len(),
{
    lemma_newest_first_sorted(s);
}

proof fn lemma_insert_len(s: Seq<SessionInfoView>, x: SessionInfoView)
    ensures
        insert_newest_first(s, x).len() == s.len() + 1,
    decreases s.len(),
{
    if s.len() > 0 && !text_less(s[0].id, x.id) {
        lemma_insert_len(s.drop_first(), x);
    }
}

proof fn lemma_insert_sorted(s: Seq<SessionInfoView>, x: SessionInfoView)
    requires
        forall|i: int, j: int| 0 <= i < j < s.len() ==> !text_less(#[trigger] s[i].id, #[trigger] s[j].id),
    ensures
        forall|i: int, j: int|
            0 <= i < j < insert_newest_first(s, x).len() ==> !text_less(
                #[trigger] insert_newest_first(s, x)[i].id,
                #[trigger] insert_newest_first(s, x)[j].id,
            ),
    decreases s.len(),
{
    let r = insert_newest_first(s, x);
    if s.len() == 0 {
    } else if text_less(s[0].id, x.id) {
        assert forall|i: int, j: int| 0 <= i < j < r.len() implies !text_less(#[trigger] r[i].id, #[trigger] r[j].id) by {
            if i == 0 {
                if j == 1 {
                    lemma_text_less_asymmetric(s[0].id, x.id);
                } else {
                    assert(!text_less(s[0].id, s[j - 1].id));
                    if text_less(x.id, s[j - 1].id) {
                        lemma_text_less_transitive(s[0].id, x.id, s[j - 1].id);
                    }
                }
            } else {
                assert(r[i] == s[i - 1] && r[j] == s[j - 1]);
            }
        }
    } else {
        let t = s.drop_first();
        lemma_insert_sorted(t, x);
        lemma_insert_len(t, x);
        let rt = insert_newest_first(t, x);
        assert(r == seq![s[0]] + rt);
        assert forall|i: int, j: int| 0 <= i < j < r.len() implies !text_less(#[trigger] r[i].id, #[trigger] r[j].id) by {
            if i == 0 {
                assert(r[j] == rt[j - 1]);
                lemma_insert_member(t, x, j - 1);
                if rt[j - 1] == x {
                } else {
                    let m = choose|m: int| 0 <= m < t.len() && t[m] == rt[j - 1];
                    assert(t[m] == s[m + 1]);
                }
            } else {
                assert(r[i] == rt[i - 1] && r[j] == rt[j - 1]);
            }
        }
    }
}

proof fn lemma_insert_member(s: Seq<SessionInfoView>, x: SessionInfoView, k: int)
    requires
        0 <= k < insert_newest_first(s, x).len(),
    ensures
        insert_newest_first(s, x)[k] == x || exists|m: int| 0 <= m < s.len() && s[m] == insert_newest_first(s, x)[k],
    decreases s.len(),
{
    let r = insert_newest_first(s, x);
    if s.len() == 0 {
    } else if text_less(s[0].id, x.id) {
        if k > 0 {
            assert(s[k - 1] == r[k]);
        }
    } else {
        if k == 0 {
            assert(s[0] == r[0]);
        } else {
            let t = s.drop_first();
            lemma_insert_member(t, x, k - 1);
            assert(r[k] == insert_newest_first(t, x)[k - 1]);
            if r[k] != x {
                let m = choose|m: int| 0 <= m < t.len() && t[m] == insert_newest_first(t, x)[k - 1];
                assert(s[m + 1] == r[k]);
            }
        }
    }
}

proof fn lemma_newest_first_sorted(s: Seq<SessionInfoView>)
    ensures
        forall|i: int, j: int|
            0 <= i < j < newest_first(s).len() ==> !text_less(
                #[trigger] newest_first(s)[i].id,
                #[trigger] newest_first(s)[j].id,
            ),
    decreases s.len(),
{
    if s.len() > 0 {
        lemma_newest_first_sorted(s.drop_last());
        lemma_insert_sorted(newest_first(s.drop_last()), s.last());
    }
}

/// Listing keeps every session: as many entries come out as went in.
pub proof fn law_newest_first_len(s: Seq<SessionInfoView>)
    ensures
        newest_first(s).len() == s.len(),
    decreases s.len(),
{
    if s.len() > 0 {
        law_newest_first_len(s.drop_last());
        lemma_insert_len(newest_first(s.drop_last()), s.last());
    }
}

proof fn lemma_insert_multiset(s: Seq<SessionInfoView>, x: SessionInfoView)
    ensures
        insert_newest_first(s, x).to_multiset() =~= s.to_multiset().insert(x),
    decreases s.len(),
{
    broadcast use vstd::seq_lib::group_to_multiset_ensures;
    broadcast use vstd::seq_lib::lemma_multiset_commutative;
    broadcast use vstd::multiset::group_multiset_axioms;

    let one = seq![x];
    assert(one =~= Seq::<SessionInfoView>::empty().push(x));
    assert(Seq::<SessionInfoView>::empty().to_multiset() =~= vstd::multiset::Multiset::empty());
    if s.len() == 0 {
    } else if text_less(s[0].id, x.id) {
        assert((one + s).to_multiset() =~= one.to_multiset().add(s.to_multiset()));
    } else {
        let head = seq![s[0]];
        assert(head =~= Seq::<SessionInfoView>::empty().push(s[0]));
        lemma_insert_multiset(s.drop_first(), x);
        assert(s =~= head + s.drop_first());
        assert((head + s.drop_first()).to_multiset() =~= head.to_multiset().add(
            s.drop_first().to_multiset(),
        ));
        assert((head + insert_newest_first(s.drop_first(), x)).to_multiset()
            =~= head.to_multiset().add(insert_newest_first(s.drop_first(), x).to_multiset()));
    }
}

/// Listing neither drops, adds nor duplicates a session: what comes out is a
/// rearrangement of what went in.
pub proof fn law_newest_first_permutation(s: Seq<SessionInfoView>)
    ensures
        newest_first(s).to_multiset() =~= s.to_multiset(),
    decreases s.len(),
{
    broadcast use vstd::seq_lib::group_to_multiset_ensures;

    if s.len() > 0 {
        law_newest_first_permutation(s.drop_last());
        lemma_insert_multiset(newest_first(s.drop_last()), s.last());
        assert(s =~= s.drop_last().push(s.last()));
    }
}

// ── The latest session ──

/// The position of the session with the greatest id among the first `n`; the
/// earliest of them where several share it.
pub open spec fn latest_upto(ids: Seq<Seq<char>>, n: int) -> int
    decreases n,
{
    if n <= 1 {
        0
    } else {
        let p = latest_upto(ids, n - 1);
        if text_less(ids[p], ids[n - 1]) {
            n - 1
        } else {
            p
        }
    }
}

pub open spec fn session_ids(s: Seq<Session>) -> Seq<Seq<char>> {
    s.map_values(|x: Session| x.id@)
}

/// The session with the greatest id, the first of them on a tie; `None` for
/// no sessions.
pub fn pick_latest(sessions: Vec<Session>) -> (r: Option<Session>)
    ensures
        sessions@.len() == 0 ==> r is None,
        sessions@.len() > 0 ==> r == Some(sessions@[latest_upto(session_ids(sessions@), sessions@.len() as int)]),
{
    let ghost ids = session_ids(sessions@);
    if sessions.len() == 0 {
        return None;
    }
    let mut best: usize = 0;
    let mut i: usize = 1;
    while i < sessions.len()
        invariant
            1 <= i <= sessions@.len(),
            ids == session_ids(sessions@),
            best as int == latest_upto(ids, i as int),
            best < i,
        decreases sessions.len() - i,
    {
        if text_lt(sessions[best].id.as_str(), sessions[i].id.as_str()) {
            best = i;
        }
        i = i + 1;
    }
    let mut sessions = sessions;
    Some(sessions.remove(best))
}

/// The latest session has an id no other session's id comes after.
pub proof fn law_latest_is_greatest(ids: Seq<Seq<char>>, n: int, j: int)
    requires
        0 <= j < n <= ids.len(),
    ensures
        0 <= latest_upto(ids, n) < n,
        !text_less(ids[latest_upto(ids, n)], ids[j]),
    decreases n,
{
    if n > 1 {
        let p = latest_upto(ids, n - 1);
        law_latest_is_greatest(ids, n - 1, 0);
        if j < n - 1 {
            law_latest_is_greatest(ids, n - 1, j);
            if text_less(ids[p], ids[n - 1]) {
                if text_less(ids[n - 1], ids[j]) {
                    lemma_text_less_transitive(ids[p], ids[n - 1], ids[j]);
                }
            }
        } else {
            if !text_less(ids[p], ids[n - 1]) {
            } else {
                lemma_text_less_irreflexive(ids[n - 1]);
            }
        }
    } else {
        lemma_text_less_irreflexive(ids[0]);
    }
}

} // verus!
