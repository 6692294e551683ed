use vstd::prelude::*;

use crate::error::{CaptureError, ErrorKind};
use crate::utf16::{decode_utf16_lossy, utf16_lossy};

verus! {

/// One monitor as the capture backend describes it: its device name in UTF-16 code units,
/// its desktop extent and position, whether it is attached to the desktop, and the id of the
/// adapter that drives it, where the backend knows it.
#[derive(Debug, PartialEq, Eq)]
pub struct Display {
    pub name: Vec<u16>,
    pub width: i32,
    pub height: i32,
    pub online: bool,
    pub origin: (i32, i32),
    pub adapter_luid: Option<i64>,
}

/// The name under which a display is compared and reported.
pub open spec fn display_name(d: Display) -> Seq<char> {
    utf16_lossy(d.name@)
}

/// The names of a list of displays, in order.
pub open spec fn display_names(ds: Seq<Display>) -> Seq<Seq<char>> {
    ds.map_values(|d: Display| display_name(d))
}

/// The texts of a list of strings, in order.
pub open spec fn string_views(ss: Seq<String>) -> Seq<Seq<char>> {
    ss.map_values(|s: String| s@)
}

/// The index of the first entry of `names` equal to `name`, if there is one.
pub open spec fn first_position(names: Seq<Seq<char>>, name: Seq<char>) -> Option<int>
    decreases names.len(),
{
    if names.len() == 0 {
        None
    } else {
        match first_position(names.drop_last(), name) {
            Some(i) => Some(i),
            None => if names.last() == name {
                Some(names.len() - 1)
            } else {
                None
            },
        }
    }
}

/// The index taken from the pool for `name`: its first occurrence, or the front of the pool
/// when the name does not occur.
pub open spec fn pick_position(names: Seq<Seq<char>>, name: Seq<char>) -> int {
    match first_position(names, name) {
        Some(i) => i,
        None => 0,
    }
}

/// The pool rearranged to follow `order`: for each name of `order` in turn, the display picked
/// by `pick_position` is taken out of the pool and appended.
pub open spec fn reorder(order: Seq<Seq<char>>, pool: Seq<Display>, pool_names: Seq<Seq<char>>) -> Seq<Display>
    decreases order.len(),
{
    if order.len() == 0 || pool.len() == 0 {
        Seq::empty()
    } else {
        let p = pick_position(pool_names, order[0]);
        seq![pool[p]] + reorder(order.drop_first(), pool.remove(p), pool_names.remove(p))
    }
}

/// Whether every name of `names` occurs in `pool_names`.
pub open spec fn all_named_in(names: Seq<Seq<char>>, pool_names: Seq<Seq<char>>) -> bool {
    forall|i: int| 0 <= i < names.len() ==> pool_names.contains(#[trigger] names[i])
}

/// The displays reported when GDI lists `gdi` and DXGI lists `dxgi`, with their names:
/// the GDI list when DXGI lists none; the DXGI list when the two differ in length or some GDI
/// name is missing among the DXGI names; otherwise the DXGI list put in the GDI order.
pub open spec fn selected(
    gdi: Seq<Display>,
    gdi_names: Seq<Seq<char>>,
    dxgi: Seq<Display>,
    dxgi_names: Seq<Seq<char>>,
) -> Seq<Display> {
    if dxgi.len() == 0 {
        gdi
    } else if dxgi.len() != gdi.len() {
        dxgi
    } else if !all_named_in(gdi_names, dxgi_names) {
        dxgi
    } else {
        reorder(gdi_names, dxgi, dxgi_names)
    }
}

/// A backend that enumerates the displays through GDI and through DXGI.
pub trait DisplaySource {
    /// The displays that GDI reports.
    fn gdi_displays() -> Vec<Display>;

    /// The displays that DXGI reports.
    fn dxgi_displays() -> Result<Vec<Display>, CaptureError>;
}

/// The index of the first of `names` equal to `name`, if any.
fn position_of(names: &Vec<String>, name: &String) -> (r: Option<usize>)
    ensures
        match first_position(string_views(names@), name@) {
            Some(i) => r == Some(i as usize),
            None => r is None,
        },
{
    let ghost all = string_views(names@);
    let mut j: usize = 0;
    while j < names.len()
        invariant
            0 <= j <= names.len(),
            all == string_views(names@),
            first_position(all.take(j as int), name@) is None,
        decreases names.len() - j,
    {
        assert(all.take(j + 1).drop_last() =~= all.take(j as int));
        if names[j] == *name {
            assert(first_position(all.take(j + 1), name@) == Some(j as int));
            proof {
                lemma_first_position_prefix(all, name@, j + 1);
            }
            return Some(j);
        }
        assert(first_position(all.take(j + 1), name@) is None);
        j += 1;
    }
    assert(all.take(j as int) =~= all);
    None
}

/// A first occurrence in a prefix is the first occurrence in the whole sequence.
proof fn lemma_first_position_prefix(names: Seq<Seq<char>>, name: Seq<char>, k: int)
    requires
        0 <= k <= names.len(),
        first_position(names.take(k), name) is Some,
    ensures
        first_position(names, name) == first_position(names.take(k), name),
    decreases names.len() - k,
{
    if k < names.len() {
        assert(names.take(k + 1).drop_last() =~= names.take(k));
        lemma_first_position_prefix(names, name, k + 1);
    } else {
        assert(names.take(k) =~= names);
    }
}

/// `first_position` finds the first occurrence, and finds none only when there is none.
proof fn lemma_first_position(names: Seq<Seq<char>>, name: Seq<char>)
    ensures
        match first_position(names, name) {
            Some(i) => {
                &&& 0 <= i < names.len()
                &&& names[i] == name
                &&& forall|j: int| 0 <= j < i ==> names[j] != name
            },
            None => !names.contains(name),
        },
    decreases names.len(),
{
    if names.len() > 0 {
        lemma_first_position(names.drop_last(), name);
        assert forall|j: int| 0 <= j < names.len() - 1 implies #[trigger] names[j] == names.drop_last()[j] by {}
        if first_position(names.drop_last(), name) is None && names.last() != name {
            assert forall|j: int| 0 <= j < names.len() implies names[j] != name by {
                if j < names.len() - 1 {
                    assert(names.drop_last()[j] == names[j]);
                }
            }
        }
    }
}

/// Whether `name` is among `names`.
fn contains_name(names: &Vec<String>, name: &String) -> (b: bool)
    ensures
        b == string_views(names@).contains(name@),
{
    proof {
        lemma_first_position(string_views(names@), name@);
    }
    position_of(names, name).is_some()
}

/// Takes the displays of `pool` out in the order of the names of `order`, as `reorder` says.
fn reorder_displays(order: &Vec<String>, pool: Vec<Display>, pool_names: Vec<String>) -> (out: Vec<Display>)
    requires
        pool.len() == pool_names.len(),
        order.len() <= pool.len(),
    ensures
        out@ == reorder(string_views(order@), pool@, string_views(pool_names@)),
{
    let ghost ord = string_views(order@);
    let ghost goal = reorder(ord, pool@, string_views(pool_names@));
    let ghost n = pool.len();
    let mut pool = pool;
    let mut pool_names = pool_names;
    let mut out: Vec<Display> = Vec::new();
    let mut i: usize = 0;
    assert(ord.skip(0) =~= ord);
    while i < order.len()
        invariant
            0 <= i <= order.len(),
            order.len() <= n,
            ord == string_views(order@),
            pool.len() == pool_names.len(),
            pool.len() == n - i,
            out@ + reorder(ord.skip(i as int), pool@, string_views(pool_names@)) == goal,
        decreases order.len() - i,
    {
        let ghost rest = ord.skip(i as int);
        let ghost names_before = string_views(pool_names@);
        let ghost pool_before = pool@;
        let p = match position_of(&pool_names, &order[i]) {
            Some(p) => p,
            None => 0,
        };
        assert(rest[0] == order[i as int]@);
        proof {
            lemma_first_position(names_before, rest[0]);
        }
        assert(p == pick_position(names_before, rest[0]));
        let d = pool.remove(p);
        let _ = pool_names.remove(p);
        assert(string_views(pool_names@) =~= names_before.remove(p as int));
        assert(rest.drop_first() =~= ord.skip(i + 1));
        assert(reorder(rest, pool_before, names_before) == seq![d] + reorder(
            ord.skip(i + 1),
            pool@,
            string_views(pool_names@),
        ));
        out.push(d);
        assert(out@ + reorder(ord.skip(i + 1), pool@, string_views(pool_names@)) =~= (out@.drop_last()
            + reorder(rest, pool_before, names_before)));
        i += 1;
    }
    assert(ord.skip(i as int).len() == 0);
    assert(out@ + reorder(ord.skip(i as int), pool@, string_views(pool_names@)) =~= out@);
    out
}

/// Chooses what to report from the GDI and DXGI display lists and their names, as `selected`
/// says: the GDI list when DXGI has none; the DXGI list when the lengths differ or a GDI name
/// is missing among the DXGI names; otherwise the DXGI displays put in the order of the GDI names.
pub fn select_by_names(
    displays_gdi: Vec<Display>,
    names_gdi: &Vec<String>,
    displays_dxgi: Vec<Display>,
    names_dxgi: Vec<String>,
) -> (out: Vec<Display>)
    requires
        names_gdi.len() == displays_gdi.len(),
        names_dxgi.len() == displays_dxgi.len(),
    ensures
        out@ == selected(displays_gdi@, string_views(names_gdi@), displays_dxgi@, string_views(names_dxgi@)),
{
    if displays_dxgi.len() == 0 {
        return displays_gdi;
    }
    if displays_dxgi.len() != displays_gdi.len() {
        return displays_dxgi;
    }
    let ghost gn = string_views(names_gdi@);
    let ghost dn = string_views(names_dxgi@);
    let mut i: usize = 0;
    while i < names_gdi.len()
        invariant
            0 <= i <= names_gdi.len(),
            gn == string_views(names_gdi@),
            dn == string_views(names_dxgi@),
            displays_dxgi.len() != 0,
            displays_dxgi.len() == displays_gdi.len(),
            names_gdi.len() == displays_gdi.len(),
            names_dxgi.len() == displays_dxgi.len(),
            forall|k: int| 0 <= k < i ==> dn.contains(#[trigger] gn[k]),
        decreases names_gdi.len() - i,
    {
        if !contains_name(&names_dxgi, &names_gdi[i]) {
            assert(!dn.contains(gn[i as int]));
            assert(!all_named_in(gn, dn));
            return displays_dxgi;
        }
        i += 1;
    }
    assert(all_named_in(gn, dn));
    reorder_displays(names_gdi, displays_dxgi, names_dxgi)
}

/// The displays reported for the GDI list `gdi` and the DXGI list `dxgi`, each display
/// compared by its name.
pub open spec fn reported_displays(gdi: Seq<Display>, dxgi: Seq<Display>) -> Seq<Display> {
    selected(gdi, display_names(gdi), dxgi, display_names(dxgi))
}

/// The DXGI list that a DXGI enumeration contributes: its displays, or none when it failed.
pub open spec fn dxgi_or_empty(r: Result<Vec<Display>, CaptureError>) -> Seq<Display> {
    match r {
        Ok(v) => v@,
        Err(_) => Seq::empty(),
    }
}

/// The names of `ds`, in order.
fn names_of(ds: &Vec<Display>) -> (names: Vec<String>)
    ensures
        names.len() == ds.len(),
        string_views(names@) == display_names(ds@),
{
    let mut names: Vec<String> = Vec::new();
    let mut i: usize = 0;
    while i < ds.len()
        invariant
            0 <= i <= ds.len(),
            names.len() == i,
            string_views(names@) == display_names(ds@).take(i as int),
        decreases ds.len() - i,
    {
        let ghost prev = names@;
        let n = ds[i].name();
        names.push(n);
        assert(names@ == prev.push(n));
        assert forall|k: int| 0 <= k < i + 1 implies #[trigger] string_views(names@)[k] == display_names(ds@).take(i + 1)[k] by {
            if k < i {
                assert(string_views(prev)[k] == display_names(ds@).take(i as int)[k]);
            }
        }
        assert(string_views(names@) =~= display_names(ds@).take(i + 1));
        i += 1;
    }
    assert(display_names(ds@).take(i as int) =~= display_names(ds@));
    names
}

impl Display {
    /// The primary display; not available from this backend, so always `NotFound`.
    pub fn primary() -> (r: Result<Display, CaptureError>)
        ensures
            r is Err,
            r->Err_0.kind == ErrorKind::NotFound,
    {
        Err(CaptureError::from_kind(ErrorKind::NotFound))
    }

    /// All displays: those that DXGI reports, in the order GDI reports them where the two
    /// agree, and the GDI list where DXGI reports none.
    pub fn all<S: DisplaySource>() -> (r: Result<Vec<Display>, CaptureError>)
        ensures
            r is Ok,
            exists|gdi: Vec<Display>, dxgi: Result<Vec<Display>, CaptureError>|
                #[trigger] call_ensures(S::gdi_displays, (), gdi) && #[trigger] call_ensures(
                    S::dxgi_displays,
                    (),
                    dxgi,
                ) && r->Ok_0@ == reported_displays(gdi@, dxgi_or_empty(dxgi)),
    {
        let displays_gdi = S::gdi_displays();
        let displays_dxgi = Self::all_::<S>();
        Ok(Self::select(displays_gdi, displays_dxgi))
    }

    /// The displays that DXGI reports: the source's answer.
    fn all_<S: DisplaySource>() -> (r: Result<Vec<Display>, CaptureError>)
        ensures
            call_ensures(S::dxgi_displays, (), r),
    {
        S::dxgi_displays()
    }

    /// What `all` reports once GDI has listed `displays_gdi` and DXGI has answered
    /// `displays_dxgi`; a failed DXGI enumeration counts as an empty list.
    pub fn select(displays_gdi: Vec<Display>, displays_dxgi: Result<Vec<Display>, CaptureError>) -> (out: Vec<Display>)
        ensures
            out@ == reported_displays(displays_gdi@, dxgi_or_empty(displays_dxgi)),
    {
        let displays_dxgi = match displays_dxgi {
            Ok(v) => v,
            Err(_) => Vec::new(),
        };
        let names_gdi = names_of(&displays_gdi);
        let names_dxgi = names_of(&displays_dxgi);
        select_by_names(displays_gdi, &names_gdi, displays_dxgi, names_dxgi)
    }

    /// The width in pixels, the backend's signed extent converted as `as usize` converts it.
    pub fn width(&self) -> (w: usize)
        ensures
            w == self.width as usize,
    {
        self.width as usize
    }

    /// The height in pixels, the backend's signed extent converted as `as usize` converts it.
    pub fn height(&self) -> (h: usize)
        ensures
            h == self.height as usize,
    {
        self.height as usize
    }

    /// The device name, decoded from UTF-16 with unpaired surrogates replaced.
    pub fn name(&self) -> (n: String)
        ensures
            n@ == display_name(*self),
    {
        decode_utf16_lossy(self.name.as_slice())
    }

    /// Whether the display is attached to the desktop.
    pub fn is_online(&self) -> (b: bool)
        ensures
            b == self.online,
    {
        self.online
    }

    /// The desktop position of the display's top-left corner.
    pub fn origin(&self) -> (o: (i32, i32))
        ensures
            o == self.origin,
    {
        self.origin
    }

    /// Whether this is the primary display, which is the one placed at the desktop origin.
    pub fn is_primary(&self) -> (b: bool)
        ensures
            b == (self.origin.0 == 0 && self.origin.1 == 0),
    {
        let o = self.origin();
        o.0 == 0 && o.1 == 0
    }

    /// The id of the adapter that drives the display, where the backend knows it.
    pub fn adapter_luid(&self) -> (l: Option<i64>)
        ensures
            l == self.adapter_luid,
    {
        self.adapter_luid
    }
}

/// The position picked from a non-empty pool lies inside it.
proof fn lemma_pick_in_range(names: Seq<Seq<char>>, name: Seq<char>)
    requires
        names.len() > 0,
    ensures
        0 <= pick_position(names, name) < names.len(),
{
    lemma_first_position(names, name);
}

/// Rearranging a pool by an order of its own length loses and adds no display.
proof fn lemma_reorder_permutes(order: Seq<Seq<char>>, pool: Seq<Display>, pool_names: Seq<Seq<char>>)
    requires
        pool.len() == pool_names.len(),
        order.len() == pool.len(),
    ensures
        reorder(order, pool, pool_names).to_multiset() == pool.to_multiset(),
    decreases order.len(),
{
    broadcast use vstd::seq_lib::group_to_multiset_ensures;
    broadcast use vstd::multiset::group_multiset_axioms;

    if order.len() == 0 {
        assert(pool =~= Seq::<Display>::empty());
        assert(reorder(order, pool, pool_names) =~= Seq::<Display>::empty());
    } else {
        let p = pick_position(pool_names, order[0]);
        lemma_pick_in_range(pool_names, order[0]);
        lemma_reorder_permutes(order.drop_first(), pool.remove(p), pool_names.remove(p));
        let rest = reorder(order.drop_first(), pool.remove(p), pool_names.remove(p));
        vstd::seq_lib::lemma_multiset_commutative(seq![pool[p]], rest);
        assert(seq![pool[p]] =~= Seq::<Display>::empty().push(pool[p]));
        assert(pool.to_multiset().count(pool[p]) > 0) by {
            assert(pool.contains(pool[p]));
        }
        assert(reorder(order, pool, pool_names).to_multiset() =~= pool.to_multiset());
    }
}

/// Rearranging a pool whose names are, as a multiset, those of the order puts the names in
/// that order.
proof fn lemma_reorder_follows_order(order: Seq<Seq<char>>, pool: Seq<Display>)
    requires
        order.to_multiset() == display_names(pool).to_multiset(),
    ensures
        display_names(reorder(order, pool, display_names(pool))) == order,
    decreases order.len(),
{
    broadcast use vstd::seq_lib::group_to_multiset_ensures;
    broadcast use vstd::multiset::group_multiset_axioms;

    let names = display_names(pool);
    vstd::seq_lib::to_multiset_len(order);
    vstd::seq_lib::to_multiset_len(names);
    assert(order.len() == names.len());
    if order.len() == 0 {
        assert(display_names(reorder(order, pool, names)) =~= order);
    } else {
        assert(order.contains(order[0]));
        vstd::seq_lib::to_multiset_contains(order, order[0]);
        vstd::seq_lib::to_multiset_contains(names, order[0]);
        assert(names.contains(order[0]));
        lemma_first_position(names, order[0]);
        let p = pick_position(names, order[0]);
        assert(names[p] == order[0]);
        assert(names.remove(p) =~= display_names(pool.remove(p)));
        assert(order.drop_first() =~= order.remove(0));
        lemma_reorder_follows_order(order.drop_first(), pool.remove(p));
        let rest = reorder(order.drop_first(), pool.remove(p), names.remove(p));
        assert(display_names(reorder(order, pool, names)) =~= seq![names[p]] + display_names(rest));
        assert(display_names(reorder(order, pool, names)) =~= order);
    }
}

/// When DXGI lists nothing, the GDI list is reported as it is.
pub proof fn law_gdi_reported_when_dxgi_lists_none(gdi: Seq<Display>)
    ensures
        reported_displays(gdi, Seq::empty()) == gdi,
{
}

/// When DXGI lists any display, the report holds each DXGI display exactly as often as
/// DXGI lists it, and nothing else.
pub proof fn law_dxgi_displays_reported_once(gdi: Seq<Display>, dxgi: Seq<Display>)
    requires
        dxgi.len() > 0,
    ensures
        reported_displays(gdi, dxgi).to_multiset() == dxgi.to_multiset(),
{
    let gn = display_names(gdi);
    let dn = display_names(dxgi);
    if dxgi.len() == gdi.len() && all_named_in(gn, dn) {
        lemma_reorder_permutes(gn, dxgi, dn);
    }
}

/// When GDI and DXGI name the same displays (as a multiset of names), the report lists them
/// in the GDI order of names.
pub proof fn law_report_follows_gdi_order(gdi: Seq<Display>, dxgi: Seq<Display>)
    requires
        dxgi.len() > 0,
        display_names(gdi).to_multiset() == display_names(dxgi).to_multiset(),
    ensures
        display_names(reported_displays(gdi, dxgi)) == display_names(gdi),
{
    broadcast use vstd::seq_lib::group_to_multiset_ensures;

    let gn = display_names(gdi);
    let dn = display_names(dxgi);
    vstd::seq_lib::to_multiset_len(gn);
    vstd::seq_lib::to_multiset_len(dn);
    assert(gn.len() == dn.len());
    assert forall|i: int| 0 <= i < gn.len() implies dn.contains(#[trigger] gn[i]) by {
        assert(gn.contains(gn[i]));
        vstd::seq_lib::to_multiset_contains(gn, gn[i]);
        vstd::seq_lib::to_multiset_contains(dn, gn[i]);
    }
    lemma_reorder_follows_order(gn, dxgi);
}

/// Whether a display has the name `n`.
pub open spec fn named(n: Seq<char>) -> spec_fn(Display) -> bool {
    |d: Display| display_name(d) == n
}

/// Filtering a sequence none of whose items passes gives nothing.
proof fn lemma_filter_none(s: Seq<Display>, f: spec_fn(Display) -> bool)
    requires
        forall|k: int| 0 <= k < s.len() ==> !f(#[trigger] s[k]),
    ensures
        s.filter(f) == Seq::<Display>::empty(),
    decreases s.len(),
{
    reveal(Seq::filter);
    if s.len() > 0 {
        assert forall|k: int| 0 <= k < s.drop_last().len() implies !f(#[trigger] s.drop_last()[k]) by {
            assert(s.drop_last()[k] == s[k]);
        }
        lemma_filter_none(s.drop_last(), f);
        assert(!f(s[s.len() - 1]));
    }
}

/// Filtering a single display keeps it exactly when it passes.
proof fn lemma_filter_single(x: Display, f: spec_fn(Display) -> bool)
    ensures
        f(x) ==> seq![x].filter(f) == seq![x],
        !f(x) ==> seq![x].filter(f) == Seq::<Display>::empty(),
{
    reveal_with_fuel(Seq::filter, 2);
    let one = seq![x];
    assert(one.drop_last() =~= Seq::<Display>::empty());
    assert(one.last() == x);
    assert(Seq::<Display>::empty().push(x) =~= one);
}

/// Taking item `p` out of `pool`: when it is the first item that passes `f`, it is the first
/// item of the filtered pool and the rest is the filtered remainder; when it does not pass,
/// the filtered pool is the filtered remainder.
proof fn lemma_filter_take_out(pool: Seq<Display>, p: int, f: spec_fn(Display) -> bool)
    requires
        0 <= p < pool.len(),
        f(pool[p]) ==> forall|k: int| 0 <= k < p ==> !f(#[trigger] pool[k]),
    ensures
        f(pool[p]) ==> pool.filter(f) == seq![pool[p]] + pool.remove(p).filter(f),
        !f(pool[p]) ==> pool.filter(f) == pool.remove(p).filter(f),
{
    let front = pool.take(p);
    let back = pool.skip(p + 1);
    let one = seq![pool[p]];
    assert(pool =~= front + one + back);
    assert(pool.remove(p) =~= front + back);
    Seq::filter_distributes_over_add(front + one, back, f);
    Seq::filter_distributes_over_add(front, one, f);
    Seq::filter_distributes_over_add(front, back, f);
    lemma_filter_single(pool[p], f);
    if f(pool[p]) {
        assert forall|k: int| 0 <= k < front.len() implies !f(#[trigger] front[k]) by {
            assert(front[k] == pool[k]);
        }
        lemma_filter_none(front, f);
        assert(pool.filter(f) =~= one + back.filter(f));
        assert(pool.remove(p).filter(f) =~= back.filter(f));
    } else {
        assert(pool.filter(f) =~= front.filter(f) + back.filter(f));
    }
}

/// Rearranging a pool by names keeps the displays of each name in their pool order.
proof fn lemma_reorder_keeps_name_order(order: Seq<Seq<char>>, pool: Seq<Display>, n: Seq<char>)
    requires
        order.len() == pool.len(),
    ensures
        reorder(order, pool, display_names(pool)).filter(named(n)) == pool.filter(named(n)),
    decreases order.len(),
{
    let names = display_names(pool);
    let f = named(n);
    if order.len() == 0 {
        assert(pool =~= Seq::<Display>::empty());
        assert(reorder(order, pool, names) =~= Seq::<Display>::empty());
    } else {
        lemma_first_position(names, order[0]);
        let p = pick_position(names, order[0]);
        lemma_pick_in_range(names, order[0]);
        assert(names.remove(p) =~= display_names(pool.remove(p)));
        lemma_reorder_keeps_name_order(order.drop_first(), pool.remove(p), n);
        let rest = reorder(order.drop_first(), pool.remove(p), names.remove(p));
        // the display taken is the first one left with its own name
        assert forall|k: int| 0 <= k < p implies !f(#[trigger] pool[k]) || !f(pool[p]) by {
            if f(pool[k]) && f(pool[p]) {
                assert(names[k] == names[p]);
                assert(first_position(names, order[0]) is Some);
            }
        }
        lemma_filter_take_out(pool, p, f);
        Seq::filter_distributes_over_add(seq![pool[p]], rest, f);
        lemma_filter_single(pool[p], f);
        assert(reorder(order, pool, names).filter(f) =~= pool.filter(f));
    }
}

/// Displays that share a name are reported in the order DXGI lists them: for every name,
/// the reported displays of that name are the DXGI displays of that name, in the same order.
pub proof fn law_same_named_displays_keep_dxgi_order(gdi: Seq<Display>, dxgi: Seq<Display>, n: Seq<char>)
    requires
        dxgi.len() > 0,
    ensures
        reported_displays(gdi, dxgi).filter(named(n)) == dxgi.filter(named(n)),
{
    if dxgi.len() == gdi.len() && all_named_in(display_names(gdi), display_names(dxgi)) {
        lemma_reorder_keeps_name_order(display_names(gdi), dxgi, n);
    }
}

/// When DXGI lists some displays but not as many as GDI does, exactly the DXGI displays are
/// reported, in the DXGI order.
pub proof fn law_dxgi_reported_when_counts_differ(gdi: Seq<Display>, dxgi: Seq<Display>)
    requires
        dxgi.len() > 0,
        dxgi.len() != gdi.len(),
    ensures
        reported_displays(gdi, dxgi) == dxgi,
{
}

/// A failed DXGI enumeration reports the GDI list as it is.
pub proof fn law_gdi_reported_when_dxgi_fails(gdi: Seq<Display>, e: CaptureError)
    ensures
        reported_displays(gdi, dxgi_or_empty(Err(e))) == gdi,
{
}

} // verus!
