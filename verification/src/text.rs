//! Character-level text rules: Unicode whitespace trimming, trimmed equality,
//! bounded labels and the application-bundle path rules.
use vstd::prelude::*;

verus! {

/// Rust's `char::is_whitespace`: the Unicode `White_Space` property.
pub open spec fn is_white_space(c: char) -> bool {
    let n = c as u32;
    ||| 0x9 <= n <= 0xd
    ||| n == 0x20
    ||| n == 0x85
    ||| n == 0xa0
    ||| n == 0x1680
    ||| 0x2000 <= n <= 0x200a
    ||| n == 0x2028
    ||| n == 0x2029
    ||| n == 0x202f
    ||| n == 0x205f
    ||| n == 0x3000
}

/// The text without its leading whitespace.
pub open spec fn trim_start(s: Seq<char>) -> Seq<char>
    decreases s.len(),
{
    if s.len() > 0 && is_white_space(s[0]) {
        trim_start(s.drop_first())
    } else {
        s
    }
}

/// The text without its trailing whitespace.
pub open spec fn trim_end(s: Seq<char>) -> Seq<char>
    decreases s.len(),
{
    if s.len() > 0 && is_white_space(s.last()) {
        trim_end(s.drop_last())
    } else {
        s
    }
}

/// `str::trim`: the text without leading and trailing whitespace.
pub open spec fn trimmed(s: Seq<char>) -> Seq<char> {
    trim_end(trim_start(s))
}

/// The views of an optional string.
pub open spec fn opt_view(o: Option<String>) -> Option<Seq<char>> {
    match o {
        Some(s) => Some(s@),
        None => None,
    }
}

/// Two optional texts are both present and equal once trimmed.
pub open spec fn text_equal(left: Option<Seq<char>>, right: Option<Seq<char>>) -> bool {
    match (left, right) {
        (Some(l), Some(r)) => trimmed(l) == trimmed(r),
        _ => false,
    }
}

/// At most the first `n` characters of `s`.
pub open spec fn prefix_upto(s: Seq<char>, n: nat) -> Seq<char> {
    if s.len() <= n {
        s
    } else {
        s.take(n as int)
    }
}

/// The longest label kept from an Accessibility attribute, in characters.
pub const SEMANTIC_TEXT_LIMIT: usize = 512;

/// What `limit_semantic_text` keeps of a value: nothing when it is blank,
/// else its trimmed text cut to the label limit.
pub open spec fn limited_text(s: Seq<char>) -> Option<Seq<char>> {
    if trimmed(s).len() == 0 {
        None
    } else {
        Some(prefix_upto(trimmed(s), SEMANTIC_TEXT_LIMIT as nat))
    }
}

pub fn char_is_white_space(c: char) -> (r: bool)
    ensures
        r == is_white_space(c),
{
    let n = c as u32;
    (0x9 <= n && n <= 0xd) || n == 0x20 || n == 0x85 || n == 0xa0 || n == 0x1680 || (0x2000 <= n
        && n <= 0x200a) || n == 0x2028 || n == 0x2029 || n == 0x202f || n == 0x205f || n == 0x3000
}

/// The characters of a text, in order.
pub fn chars_of(s: &str) -> (r: Vec<char>)
    ensures
        r@ == s@,
{
    let n = s.unicode_len();
    let mut r: Vec<char> = Vec::new();
    let mut i: usize = 0;
    while i < n
        invariant
            n == s@.len(),
            i <= n,
            r@ == s@.take(i as int),
        decreases n - i,
    {
        let c = s.get_char(i);
        r.push(c);
        i = i + 1;
        assert(r@ =~= s@.take(i as int));
    }
    assert(r@ =~= s@);
    r
}

/// Whether two character sequences are equal.
pub fn chars_equal(a: &Vec<char>, b: &Vec<char>) -> (r: bool)
    ensures
        r == (a@ == b@),
{
    if a.len() != b.len() {
        return false;
    }
    let mut i: usize = 0;
    while i < a.len()
        invariant
            a.len() == b.len(),
            i <= a.len(),
            forall|j: int| 0 <= j < i ==> a@[j] == b@[j],
        decreases a.len() - i,
    {
        if a[i] != b[i] {
            return false;
        }
        i = i + 1;
    }
    assert(a@ =~= b@);
    true
}

/// Whether two texts are equal.
pub fn str_equals(a: &str, b: &str) -> (r: bool)
    ensures
        r == (a@ == b@),
{
    let va = chars_of(a);
    let vb = chars_of(b);
    chars_equal(&va, &vb)
}

/// The characters `v[from..to]`.
pub fn chars_between(v: &Vec<char>, from: usize, to: usize) -> (r: Vec<char>)
    requires
        from <= to <= v.len(),
    ensures
        r@ == v@.subrange(from as int, to as int),
{
    let mut r: Vec<char> = Vec::new();
    let mut i = from;
    while i < to
        invariant
            from <= i <= to <= v.len(),
            r@ == v@.subrange(from as int, i as int),
        decreases to - i,
    {
        r.push(v[i]);
        i = i + 1;
        assert(r@ =~= v@.subrange(from as int, i as int));
    }
    r
}

/// The bounds of the trimmed part of `v`.
pub fn trim_bounds(v: &Vec<char>) -> (r: (usize, usize))
    ensures
        r.0 <= r.1 <= v.len(),
        v@.subrange(r.0 as int, r.1 as int) == trimmed(v@),
        v@.subrange(r.0 as int, v.len() as int) == trim_start(v@),
{
    let n = v.len();
    let mut a: usize = 0;
    assert(v@.subrange(0, n as int) =~= v@);
    while a < n && char_is_white_space(v[a])
        invariant
            n == v.len(),
            a <= n,
            trim_start(v@) == trim_start(v@.subrange(a as int, n as int)),
        decreases n - a,
    {
        let ghost s = v@.subrange(a as int, n as int);
        assert(s.drop_first() =~= v@.subrange(a + 1, n as int));
        a = a + 1;
    }
    assert(trim_start(v@) == v@.subrange(a as int, n as int));
    let mut b: usize = n;
    while b > a && char_is_white_space(v[b - 1])
        invariant
            n == v.len(),
            a <= b <= n,
            trimmed(v@) == trim_end(v@.subrange(a as int, b as int)),
        decreases b - a,
    {
        let ghost s = v@.subrange(a as int, b as int);
        assert(s.drop_last() =~= v@.subrange(a as int, b - 1));
        b = b - 1;
    }
    (a, b)
}

/// The trimmed characters of a text.
pub fn trimmed_chars(s: &str) -> (r: Vec<char>)
    ensures
        r@ == trimmed(s@),
{
    let v = chars_of(s);
    let (a, b) = trim_bounds(&v);
    chars_between(&v, a, b)
}

/// Whether two optional texts are both present and equal once trimmed.
pub fn semantic_text_equal(left: &Option<String>, right: &Option<String>) -> (r: bool)
    ensures
        r == text_equal(opt_view(*left), opt_view(*right)),
{
    match (left, right) {
        (Some(l), Some(r)) => {
            let tl = trimmed_chars(l.as_str());
            let tr = trimmed_chars(r.as_str());
            chars_equal(&tl, &tr)
        },
        _ => false,
    }
}

/// Whether two optional texts are equal exactly (both absent, or both present
/// with the same characters).
pub fn optional_text_equals(left: &Option<String>, right: &Option<String>) -> (r: bool)
    ensures
        r == (opt_view(*left) == opt_view(*right)),
{
    match (left, right) {
        (Some(l), Some(r)) => str_equals(l.as_str(), r.as_str()),
        (None, None) => true,
        _ => false,
    }
}

/// Keeps an Accessibility attribute only when it holds visible text, trimmed
/// and cut to at most `SEMANTIC_TEXT_LIMIT` characters.
pub fn limit_semantic_text(value: String) -> (r: Option<String>)
    ensures
        opt_view(r) == limited_text(value@),
{
    let v = chars_of(value.as_str());
    let (a, b) = trim_bounds(&v);
    if a == b {
        return None;
    }
    let end = if b - a > SEMANTIC_TEXT_LIMIT {
        a + SEMANTIC_TEXT_LIMIT
    } else {
        b
    };
    let kept = value.as_str().substring_char(a, end);
    let r = kept.to_owned();
    proof {
        let t = trimmed(value@);
        assert(t == v@.subrange(a as int, b as int));
        if b - a > SEMANTIC_TEXT_LIMIT {
            assert(v@.subrange(a as int, end as int) =~= t.take(SEMANTIC_TEXT_LIMIT as int));
        }
    }
    Some(r)
}

/// Where the Dock sits on screen.
#[derive(Debug, Clone, Copy, PartialEq, Eq, Structural)]
pub enum DockEdge {
    Bottom,
    Left,
    Right,
}

/// The Dock edge that an `orientation` preference value names.
pub open spec fn dock_edge_of(value: Seq<char>) -> DockEdge {
    if trimmed(value) == seq!['l', 'e', 'f', 't'] {
        DockEdge::Left
    } else if trimmed(value) == seq!['r', 'i', 'g', 'h', 't'] {
        DockEdge::Right
    } else {
        DockEdge::Bottom
    }
}

/// Reads the Dock's `orientation` preference: `left`, `right`, and anything
/// else means the bottom edge.
pub fn dock_edge_from_preference(value: &str) -> (r: DockEdge)
    ensures
        r == dock_edge_of(value@),
{
    let t = trimmed_chars(value);
    let left: Vec<char> = vec!['l', 'e', 'f', 't'];
    let right: Vec<char> = vec!['r', 'i', 'g', 'h', 't'];
    assert(left@ =~= seq!['l', 'e', 'f', 't']);
    assert(right@ =~= seq!['r', 'i', 'g', 'h', 't']);
    if chars_equal(&t, &left) {
        DockEdge::Left
    } else if chars_equal(&t, &right) {
        DockEdge::Right
    } else {
        DockEdge::Bottom
    }
}

/// `s[i..i + 5]` is the bundle marker `.app/`.
pub open spec fn app_marker_at(s: Seq<char>, i: int) -> bool {
    &&& 0 <= i
    &&& i + 5 <= s.len()
    &&& s[i] == '.'
    &&& s[i + 1] == 'a'
    &&& s[i + 2] == 'p'
    &&& s[i + 3] == 'p'
    &&& s[i + 4] == '/'
}

/// The first position at or after `i` where `.app/` starts.
pub open spec fn app_marker_from(s: Seq<char>, i: nat) -> Option<int>
    decreases s.len() - i,
{
    if i + 5 > s.len() {
        None
    } else if app_marker_at(s, i as int) {
        Some(i as int)
    } else {
        app_marker_from(s, i + 1)
    }
}

/// The first position where `.app/` starts in a path.
pub open spec fn app_marker(s: Seq<char>) -> Option<int> {
    app_marker_from(s, 0)
}

/// The application bundle that contains an executable: the path up to and
/// including the first `.app` that is followed by `/`.
pub open spec fn bundle_of(s: Seq<char>) -> Option<Seq<char>> {
    match app_marker(s) {
        Some(i) => Some(s.take(i + 4)),
        None => None,
    }
}

/// What follows the first `.app/` in a path.
pub open spec fn bundle_suffix(s: Seq<char>) -> Option<Seq<char>> {
    match app_marker(s) {
        Some(i) => Some(s.skip(i + 5)),
        None => None,
    }
}

/// The last component of a path: what follows its last `/`.
pub open spec fn last_component(p: Seq<char>) -> Seq<char>
    decreases p.len(),
{
    if p.len() == 0 {
        p
    } else if p.last() == '/' {
        Seq::empty()
    } else {
        last_component(p.drop_last()).push(p.last())
    }
}

/// Two executables belong to the same program: the same path, or bundles of
/// the same name with the same path inside the bundle.
pub open spec fn paths_match(recorded: Seq<char>, running: Seq<char>) -> bool {
    ||| recorded == running
    ||| match (bundle_of(recorded), bundle_of(running)) {
        (Some(a), Some(b)) => last_component(a) == last_component(b) && bundle_suffix(recorded)
            == bundle_suffix(running),
        _ => false,
    }
}

/// The first position where `.app/` starts in `v`.
pub fn find_app_marker(v: &Vec<char>) -> (r: Option<usize>)
    ensures
        match r {
            Some(i) => app_marker(v@) == Some(i as int) && app_marker_at(v@, i as int),
            None => app_marker(v@) is None,
        },
{
    let n = v.len();
    let mut i: usize = 0;
    while i < n && n - i >= 5
        invariant
            n == v.len(),
            i <= n,
            app_marker(v@) == app_marker_from(v@, i as nat),
        decreases n - i,
    {
        if v[i] == '.' && v[i + 1] == 'a' && v[i + 2] == 'p' && v[i + 3] == 'p' && v[i + 4] == '/' {
            return Some(i);
        }
        i = i + 1;
    }
    None
}

/// The last component of the path `v`.
pub fn last_component_chars(v: &Vec<char>) -> (r: Vec<char>)
    ensures
        r@ == last_component(v@),
{
    let n = v.len();
    let mut k: usize = n;
    assert(v@.take(n as int) =~= v@);
    assert(v@.subrange(n as int, n as int) =~= Seq::<char>::empty());
    while k > 0 && v[k - 1] != '/'
        invariant
            n == v.len(),
            k <= n,
            last_component(v@) == last_component(v@.take(k as int)) + v@.subrange(
                k as int,
                n as int,
            ),
        decreases k,
    {
        let ghost p = v@.take(k as int);
        assert(p.drop_last() =~= v@.take(k - 1));
        assert(last_component(p) == last_component(v@.take(k - 1)).push(v@[k - 1]));
        assert(last_component(v@.take(k - 1)).push(v@[k - 1]) + v@.subrange(k as int, n as int)
            =~= last_component(v@.take(k - 1)) + v@.subrange(k - 1, n as int));
        k = k - 1;
    }
    if k > 0 {
        assert(last_component(v@.take(k as int)) == Seq::<char>::empty());
    } else {
        assert(v@.take(0) =~= Seq::<char>::empty());
    }
    assert(last_component(v@) =~= v@.subrange(k as int, n as int));
    chars_between(v, k, n)
}

/// The application bundle that contains an executable path.
pub fn application_bundle_path(executable: &str) -> (r: Option<&str>)
    ensures
        match r {
            Some(b) => bundle_of(executable@) == Some(b@),
            None => bundle_of(executable@) is None,
        },
{
    let v = chars_of(executable);
    match find_app_marker(&v) {
        Some(i) => {
            assert(i + 5 <= v.len());
            Some(executable.substring_char(0, i + 4))
        },
        None => None,
    }
}

/// Whether a recorded executable and a running one are the same program,
/// also when the bundle was moved to another folder.
pub fn executable_paths_match(recorded: &str, running: &str) -> (r: bool)
    ensures
        r == paths_match(recorded@, running@),
{
    let a = chars_of(recorded);
    let b = chars_of(running);
    executable_paths_match_chars(&a, &b)
}

/// `executable_paths_match` on character sequences.
pub fn executable_paths_match_chars(a: &Vec<char>, b: &Vec<char>) -> (r: bool)
    ensures
        r == paths_match(a@, b@),
{
    if chars_equal(a, b) {
        return true;
    }
    match (find_app_marker(a), find_app_marker(b)) {
        (Some(i), Some(j)) => {
            assert(i + 5 <= a.len() && j + 5 <= b.len());
            let bundle_a = chars_between(a, 0, i + 4);
            let bundle_b = chars_between(b, 0, j + 4);
            assert(bundle_a@ =~= a@.take(i + 4));
            assert(bundle_b@ =~= b@.take(j + 4));
            let name_a = last_component_chars(&bundle_a);
            let name_b = last_component_chars(&bundle_b);
            let suffix_a = chars_between(a, i + 5, a.len());
            let suffix_b = chars_between(b, j + 5, b.len());
            assert(suffix_a@ =~= a@.skip(i + 5));
            assert(suffix_b@ =~= b@.skip(j + 5));
            chars_equal(&name_a, &name_b) && chars_equal(&suffix_a, &suffix_b)
        },
        _ => false,
    }
}

/// `a` orders before `b`: the order of `String`'s `Ord`, which compares the
/// UTF-8 bytes and so orders by code point, character by character.
pub open spec fn text_before(a: Seq<char>, b: Seq<char>) -> bool
    decreases a.len(),
{
    if b.len() == 0 {
        false
    } else if a.len() == 0 {
        true
    } else if a[0] != b[0] {
        a[0] < b[0]
    } else {
        text_before(a.drop_first(), b.drop_first())
    }
}

/// Whether `a` orders before `b`.
pub fn is_text_before(a: &str, b: &str) -> (r: bool)
    ensures
        r == text_before(a@, b@),
{
    let va = chars_of(a);
    let vb = chars_of(b);
    let mut i: usize = 0;
    assert(a@.skip(0) =~= a@);
    assert(b@.skip(0) =~= b@);
    while i < va.len() && i < vb.len() && va[i] == vb[i]
        invariant
            va@ == a@,
            vb@ == b@,
            i <= va.len(),
            i <= vb.len(),
            text_before(a@, b@) == text_before(a@.skip(i as int), b@.skip(i as int)),
        decreases va.len() - i,
    {
        let ghost sa = a@.skip(i as int);
        let ghost sb = b@.skip(i as int);
        assert(sa.drop_first() =~= a@.skip(i + 1));
        assert(sb.drop_first() =~= b@.skip(i + 1));
        i = i + 1;
    }
    if i == vb.len() {
        false
    } else if i == va.len() {
        true
    } else {
        assert(a@.skip(i as int)[0] == va@[i as int]);
        assert(b@.skip(i as int)[0] == vb@[i as int]);
        va[i] < vb[i]
    }
}

/// No text orders before itself.
pub proof fn lemma_text_before_irreflexive(a: Seq<char>)
    ensures
        !text_before(a, a),
    decreases a.len(),
{
    if a.len() > 0 {
        lemma_text_before_irreflexive(a.drop_first());
    }
}

/// The order of texts is transitive.
pub proof fn lemma_text_before_transitive(a: Seq<char>, b: Seq<char>, c: Seq<char>)
    requires
        text_before(a, b),
        text_before(b, c),
    ensures
        text_before(a, c),
    decreases a.len(),
{
    if a.len() > 0 && b.len() > 0 && c.len() > 0 && a[0] == b[0] && b[0] == c[0] {
        lemma_text_before_transitive(a.drop_first(), b.drop_first(), c.drop_first());
    }
}

/// Two texts that neither order before the other are equal.
pub proof fn lemma_text_before_total(a: Seq<char>, b: Seq<char>)
    requires
        !text_before(a, b),
        !text_before(b, a),
    ensures
        a == b,
    decreases a.len(),
{
    if a.len() > 0 && b.len() > 0 {
        lemma_text_before_total(a.drop_first(), b.drop_first());
        assert(a =~= seq![a[0]] + a.drop_first());
        assert(b =~= seq![b[0]] + b.drop_first());
    } else {
        assert(a =~= b);
    }
}

} // verus!
