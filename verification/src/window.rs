//! Window records: identity and geometry of capturable windows, assembly of
//! the window list from raw platform entries, and the window registry that
//! the control surface reads.

use vstd::prelude::*;
use vstd::seq_lib::group_to_multiset_ensures;
use crate::text::{
    lex_le, lemma_lex_le_total, lemma_lex_le_trans, lemma_lex_le_antisymmetric, str_to_chars,
    chars_le, dec_int,
};
use crate::text::i64_to_string;

verus! {

broadcast use {group_to_multiset_ensures, vstd::multiset::group_multiset_axioms};

/// Milliseconds after which the window list counts as stale.
pub const AUTO_REFRESH_MS: u64 = 3000;

/// Identity and geometry of one on-screen window.
#[derive(Clone, Debug)]
pub struct WindowInfo {
    pub window_id: u64,
    pub owner_name: String,
    pub window_title: String,
    pub x: i32,
    pub y: i32,
    pub width: i32,
    pub height: i32,
}

/// Spec-level image of a window record.
pub struct WindowView {
    pub id: u64,
    pub owner: Seq<char>,
    pub title: Seq<char>,
    pub x: int,
    pub y: int,
    pub width: int,
    pub height: int,
}

impl View for WindowInfo {
    type V = WindowView;

    open spec fn view(&self) -> WindowView {
        WindowView {
            id: self.window_id,
            owner: self.owner_name@,
            title: self.window_title@,
            x: self.x as int,
            y: self.y as int,
            width: self.width as int,
            height: self.height as int,
        }
    }
}

/// "{owner} — {title}", with "(untitled)" in place of an empty title.
pub open spec fn spec_display_name(w: WindowInfo) -> Seq<char> {
    w.owner_name@ + " — "@ + (if w.window_title@.len() == 0 {
        "(untitled)"@
    } else {
        w.window_title@
    })
}

/// "{width}x{height}"
pub open spec fn spec_dimensions_str(w: WindowInfo) -> Seq<char> {
    dec_int(w.width as int) + "x"@ + dec_int(w.height as int)
}

impl WindowInfo {
    /// Human-readable name: the owning application and the window title.
    pub fn display_name(&self) -> (r: String)
        ensures
            r@ == spec_display_name(*self),
    {
        let mut s = self.owner_name.clone();
        s.append(" — ");
        if self.window_title.as_str().is_empty() {
            s.append("(untitled)");
        } else {
            s.append(self.window_title.as_str());
        }
        s
    }

    /// The stored window dimensions, as "{width}x{height}".
    pub fn dimensions_str(&self) -> (r: String)
        ensures
            r@ == spec_dimensions_str(*self),
    {
        let s = i64_to_string(self.width as i64).concat("x").concat(
            i64_to_string(self.height as i64).as_str(),
        );
        proof {
            assert(s@ =~= spec_dimensions_str(*self));
        }
        s
    }
}

/// Display order of the window list: by owner name, then by window title.
pub open spec fn win_le(a: WindowInfo, b: WindowInfo) -> bool {
    if a.owner_name@ != b.owner_name@ {
        lex_le(a.owner_name@, b.owner_name@)
    } else {
        lex_le(a.window_title@, b.window_title@)
    }
}

/// The sequence is sorted in display order.
pub open spec fn sorted_windows(s: Seq<WindowInfo>) -> bool {
    forall|i: int, j: int| 0 <= i < j < s.len() ==> win_le(#[trigger] s[i], #[trigger] s[j])
}

/// Display order is total.
pub proof fn lemma_win_le_total(a: WindowInfo, b: WindowInfo)
    ensures
        win_le(a, b) || win_le(b, a),
{
    lemma_lex_le_total(a.owner_name@, b.owner_name@);
    lemma_lex_le_total(a.window_title@, b.window_title@);
}

/// Display order is transitive.
pub proof fn lemma_win_le_trans(a: WindowInfo, b: WindowInfo, c: WindowInfo)
    requires
        win_le(a, b),
        win_le(b, c),
    ensures
        win_le(a, c),
{
    if a.owner_name@ == b.owner_name@ && b.owner_name@ == c.owner_name@ {
        lemma_lex_le_trans(a.window_title@, b.window_title@, c.window_title@);
    } else if a.owner_name@ != b.owner_name@ && b.owner_name@ != c.owner_name@ {
        lemma_lex_le_trans(a.owner_name@, b.owner_name@, c.owner_name@);
        if a.owner_name@ == c.owner_name@ {
            lemma_lex_le_antisymmetric(a.owner_name@, b.owner_name@);
        }
    }
}

/// Display-order comparison.
fn win_le_exec(a: &WindowInfo, b: &WindowInfo) -> (r: bool)
    ensures
        r == win_le(*a, *b),
{
    if a.owner_name.eq(&b.owner_name) {
        let at = str_to_chars(a.window_title.as_str());
        let bt = str_to_chars(b.window_title.as_str());
        chars_le(&at, &bt)
    } else {
        let ao = str_to_chars(a.owner_name.as_str());
        let bo = str_to_chars(b.owner_name.as_str());
        chars_le(&ao, &bo)
    }
}

/// The window views of a sequence of records.
pub open spec fn window_views(s: Seq<WindowInfo>) -> Seq<WindowView> {
    s.map_values(|w: WindowInfo| w@)
}

/// Inserting an element anywhere adds exactly that element to the multiset.
proof fn lemma_insert_to_multiset<A>(s: Seq<A>, i: int, x: A)
    requires
        0 <= i <= s.len(),
    ensures
        s.insert(i, x).to_multiset() == s.to_multiset().insert(x),
{
    let t = s.insert(i, x);
    assert(t.remove(i) =~= s);
    assert(t[i] == x);
    assert(t.to_multiset().remove(x) =~= s.to_multiset());
    assert(t.to_multiset().contains(x)) by {
        assert(t.contains(x));
    }
    assert(t.to_multiset() =~= s.to_multiset().insert(x));
}

/// Sort window records into display order. The result holds exactly the
/// input records (by view), ordered by owner name and then window title.
pub fn sort_windows(v: Vec<WindowInfo>) -> (r: Vec<WindowInfo>)
    ensures
        window_views(r@).to_multiset() == window_views(v@).to_multiset(),
        sorted_windows(r@),
{
    let ghost full = v@;
    let mut src = v;
    let mut r: Vec<WindowInfo> = Vec::new();
    while src.len() > 0
        invariant
            sorted_windows(r@),
            window_views(src@).to_multiset().add(window_views(r@).to_multiset())
                == window_views(full).to_multiset(),
        decreases src@.len(),
    {
        let ghost src_pre = src@;
        let ghost r_pre = r@;
        let x = src.pop().unwrap();
        proof {
            let vs_pre = window_views(src_pre);
            assert(vs_pre.remove(src_pre.len() - 1) =~= window_views(src@));
            assert(vs_pre.remove(src_pre.len() - 1).to_multiset() =~= vs_pre.to_multiset().remove(
                vs_pre[src_pre.len() - 1],
            ));
            assert(vs_pre[src_pre.len() - 1] == x@);
            assert(vs_pre.contains(x@));
            assert(vs_pre.to_multiset().contains(x@));
        }
        let mut p: usize = 0;
        while p < r.len() && win_le_exec(&r[p], &x)
            invariant
                p <= r@.len(),
                forall|k: int| 0 <= k < p ==> win_le(#[trigger] r@[k], x),
            decreases r@.len() - p,
        {
            p = p + 1;
        }
        let ghost pos = p as int;
        r.insert(p, x);
        proof {
            lemma_insert_to_multiset(window_views(r_pre), pos, x@);
            assert(window_views(r_pre).insert(pos, x@) =~= window_views(r@));
            assert(window_views(r@).to_multiset() =~= window_views(r_pre).to_multiset().insert(
                x@,
            ));
            assert(window_views(src_pre).to_multiset().add(window_views(r_pre).to_multiset())
                =~= window_views(src@).to_multiset().add(window_views(r@).to_multiset()));
            assert forall|i: int, j: int| 0 <= i < j < r@.len() implies win_le(
                #[trigger] r@[i],
                #[trigger] r@[j],
            ) by {
                if j < pos {
                    assert(r@[i] == r_pre[i] && r@[j] == r_pre[j]);
                } else if i < pos && j == pos {
                    assert(win_le(r_pre[i], x));
                } else if i < pos && j > pos {
                    assert(r@[i] == r_pre[i] && r@[j] == r_pre[j - 1]);
                } else if i == pos && j > pos {
                    if pos < r_pre.len() {
                        lemma_win_le_total(r_pre[pos], x);
                        assert(win_le(x, r_pre[pos]));
                        if j - 1 > pos {
                            assert(win_le(r_pre[pos], r_pre[j - 1]));
                            lemma_win_le_trans(x, r_pre[pos], r_pre[j - 1]);
                        }
                    }
                } else {
                    assert(r@[i] == r_pre[i - 1] && r@[j] == r_pre[j - 1]);
                }
            }
        }
    }
    proof {
        assert(window_views(src@).to_multiset().len() == 0);
        assert(window_views(src@).to_multiset().add(window_views(r@).to_multiset())
            =~= window_views(r@).to_multiset());
    }
    r
}

/// One raw entry of the platform window table, as far as its fields could be
/// read.
pub struct WindowCandidate {
    pub window_id: Option<i64>,
    pub owner_name: Option<String>,
    pub window_title: Option<String>,
    pub layer: Option<i64>,
    pub x: i32,
    pub y: i32,
    pub width: i32,
    pub height: i32,
}

/// Owner name of a raw entry; missing names read as empty.
pub open spec fn spec_owner(c: WindowCandidate) -> Seq<char> {
    match c.owner_name {
        Some(s) => s@,
        None => Seq::empty(),
    }
}

/// Window title of a raw entry; missing titles read as empty.
pub open spec fn spec_title(c: WindowCandidate) -> Seq<char> {
    match c.window_title {
        Some(s) => s@,
        None => Seq::empty(),
    }
}

/// A raw entry belongs in the window list: it sits on the normal application
/// layer, has an identifier, and is not entirely nameless.
pub open spec fn candidate_accepted(c: WindowCandidate) -> bool {
    &&& c.layer == Some(0 as i64)
    &&& c.window_id is Some
    &&& !(spec_owner(c).len() == 0 && spec_title(c).len() == 0)
}

/// The window record a raw entry yields.
pub open spec fn candidate_view(c: WindowCandidate) -> WindowView {
    WindowView {
        id: (c.window_id->0) as u64,
        owner: spec_owner(c),
        title: spec_title(c),
        x: c.x as int,
        y: c.y as int,
        width: c.width as int,
        height: c.height as int,
    }
}

/// The records of the accepted raw entries, in table order.
pub open spec fn accepted_views(cs: Seq<WindowCandidate>) -> Seq<WindowView>
    decreases cs.len(),
{
    if cs.len() == 0 {
        Seq::empty()
    } else {
        accepted_views(cs.drop_last()) + (if candidate_accepted(cs.last()) {
            seq![candidate_view(cs.last())]
        } else {
            Seq::empty()
        })
    }
}

/// Keep the raw entries that belong in the window list, as window records,
/// in table order.
pub fn accept_candidates(candidates: &Vec<WindowCandidate>) -> (r: Vec<WindowInfo>)
    ensures
        window_views(r@) == accepted_views(candidates@),
{
    let mut out: Vec<WindowInfo> = Vec::new();
    let mut i: usize = 0;
    while i < candidates.len()
        invariant
            i <= candidates@.len(),
            window_views(out@) == accepted_views(candidates@.subrange(0, i as int)),
        decreases candidates@.len() - i,
    {
        let ghost done = candidates@.subrange(0, i as int);
        let ghost next = candidates@.subrange(0, i + 1 as int);
        proof {
            assert(next.drop_last() =~= done);
            assert(next.last() == candidates@[i as int]);
        }
        let c = &candidates[i];
        let on_layer = match c.layer {
            Some(l) => l == 0,
            None => false,
        };
        if on_layer {
            match c.window_id {
                Some(id) => {
                    let owner = match &c.owner_name {
                        Some(s) => s.clone(),
                        None => String::new(),
                    };
                    let title = match &c.window_title {
                        Some(s) => s.clone(),
                        None => String::new(),
                    };
                    if !(owner.as_str().is_empty() && title.as_str().is_empty()) {
                        out.push(
                            WindowInfo {
                                window_id: id as u64,
                                owner_name: owner,
                                window_title: title,
                                x: c.x,
                                y: c.y,
                                width: c.width,
                                height: c.height,
                            },
                        );
                        proof {
                            assert(window_views(out@) =~= accepted_views(next));
                        }
                    } else {
                        proof {
                            assert(window_views(out@) =~= accepted_views(next));
                        }
                    }
                },
                None => {
                    proof {
                        assert(window_views(out@) =~= accepted_views(next));
                    }
                },
            }
        } else {
            proof {
                assert(window_views(out@) =~= accepted_views(next));
            }
        }
        i = i + 1;
    }
    proof {
        assert(candidates@.subrange(0, candidates@.len() as int) =~= candidates@);
    }
    out
}

/// Assemble the window list from raw platform entries: keep the entries that
/// belong in it and present them in display order.
pub fn assemble_window_list(candidates: &Vec<WindowCandidate>) -> (r: Vec<WindowInfo>)
    ensures
        window_views(r@).to_multiset() == accepted_views(candidates@).to_multiset(),
        sorted_windows(r@),
{
    let accepted = accept_candidates(candidates);
    sort_windows(accepted)
}

/// The window registry: the current window list and when it was refreshed.
pub struct WindowManager {
    pub windows: Vec<WindowInfo>,
    pub last_refresh_ms: u64,
}

impl WindowManager {
    /// An empty registry, stamped with the current time.
    pub fn new(now_ms: u64) -> (r: Self)
        ensures
            r.windows@.len() == 0,
            r.last_refresh_ms == now_ms,
    {
        WindowManager { windows: Vec::new(), last_refresh_ms: now_ms }
    }

    /// Replace the window list with a freshly enumerated one.
    pub fn refresh(&mut self, windows: Vec<WindowInfo>, now_ms: u64)
        ensures
            final(self).windows == windows,
            final(self).last_refresh_ms == now_ms,
    {
        self.windows = windows;
        self.last_refresh_ms = now_ms;
    }

    /// The list is stale: more than the refresh interval has passed.
    pub fn should_auto_refresh(&self, now_ms: u64) -> (r: bool)
        ensures
            r == (now_ms as int > self.last_refresh_ms as int + AUTO_REFRESH_MS),
    {
        if now_ms <= self.last_refresh_ms {
            false
        } else {
            now_ms - self.last_refresh_ms > AUTO_REFRESH_MS
        }
    }

    /// Index of the first window record with this identifier.
    pub open spec fn spec_find_window(s: Seq<WindowInfo>, id: u64) -> Option<int>
        decreases s.len(),
    {
        if s.len() == 0 {
            None
        } else if s[0].window_id == id {
            Some(0)
        } else {
            match Self::spec_find_window(s.subrange(1, s.len() as int), id) {
                Some(i) => Some(i + 1),
                None => None,
            }
        }
    }

    /// Look a window up by its identifier: the first record carrying it.
    pub fn get_window(&self, window_id: u64) -> (r: Option<&WindowInfo>)
        ensures
            match r {
                Some(w) => {
                    &&& Self::spec_find_window(self.windows@, window_id) is Some
                    &&& *w == self.windows@[Self::spec_find_window(self.windows@, window_id)->0]
                    &&& w.window_id == window_id
                },
                None => Self::spec_find_window(self.windows@, window_id) is None,
            },
    {
        proof {
            assert(self.windows@.subrange(0, self.windows@.len() as int) =~= self.windows@);
        }
        let mut i: usize = 0;
        while i < self.windows.len()
            invariant
                i <= self.windows@.len(),
                Self::spec_find_window(self.windows@, window_id) == match Self::spec_find_window(
                    self.windows@.subrange(i as int, self.windows@.len() as int),
                    window_id,
                ) {
                    Some(k) => Some(k + i),
                    None => None::<int>,
                },
            decreases self.windows@.len() - i,
        {
            let ghost rest = self.windows@.subrange(i as int, self.windows@.len() as int);
            proof {
                assert(rest[0] == self.windows@[i as int]);
                assert(rest.subrange(1, rest.len() as int) =~= self.windows@.subrange(
                    i + 1,
                    self.windows@.len() as int,
                ));
            }
            if self.windows[i].window_id == window_id {
                return Some(&self.windows[i]);
            }
            i = i + 1;
        }
        proof {
            assert(self.windows@.subrange(i as int, self.windows@.len() as int).len() == 0);
        }
        None
    }

    /// The current window list.
    pub fn windows(&self) -> (r: &Vec<WindowInfo>)
        ensures
            r == self.windows,
    {
        &self.windows
    }
}

} // verus!
