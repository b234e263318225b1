//! Composite identifiers: `project]$[script` names a topic, and
//! `project]$[script]$[run` names one test run.
use vstd::prelude::*;

verus! {

/// The three characters that separate the components of a key.
pub open spec fn delim() -> Seq<char> {
    seq![']', '$', '[']
}

/// The delimiter starts at position `i` of `t`.
pub open spec fn delim_at(t: Seq<char>, i: int) -> bool {
    &&& 0 <= i
    &&& i + 3 <= t.len()
    &&& t[i] == ']'
    &&& t[i + 1] == '$'
    &&& t[i + 2] == '['
}

/// The delimiter occurs somewhere in `t`.
pub open spec fn has_delim(t: Seq<char>) -> bool {
    exists|i: int| delim_at(t, i)
}

/// The topic key of a script: `project]$[script`.
pub open spec fn script_key(p: Seq<char>, s: Seq<char>) -> Seq<char> {
    p + delim() + s
}

/// The key of a test run: `project]$[script]$[run`.
pub open spec fn test_key(p: Seq<char>, s: Seq<char>, r: Seq<char>) -> Seq<char> {
    p + delim() + s + delim() + r
}

/// `t` is the key of run `r` of script `s` of project `p`, with no component
/// holding the delimiter: splitting `t` on the delimiter gives exactly `p, s, r`.
pub open spec fn splits_into(t: Seq<char>, p: Seq<char>, s: Seq<char>, r: Seq<char>) -> bool {
    &&& t == test_key(p, s, r)
    &&& !has_delim(p)
    &&& !has_delim(s)
    &&& !has_delim(r)
}

/// `j` is the position of the last delimiter in `t`.
pub open spec fn last_delim_at(t: Seq<char>, j: int) -> bool {
    &&& delim_at(t, j)
    &&& forall|k: int| j < k ==> !delim_at(t, k)
}

/// The key format of the first single-node release: `$[project]$[script]$[run]$`.
pub open spec fn legacy_test_key(p: Seq<char>, s: Seq<char>, r: Seq<char>) -> Seq<char> {
    seq!['$', '['] + p + delim() + s + delim() + r + seq![']', '$']
}

/// Where `x` holds no delimiter, the delimiters of `x ]$[ y` are the one
/// that follows `x` and those of `y`, shifted.
proof fn lemma_delims_of_join(x: Seq<char>, y: Seq<char>)
    requires
        !has_delim(x),
    ensures
        forall|j: int|
            #![trigger delim_at(x + delim() + y, j)]
            delim_at(x + delim() + y, j) <==> (j == x.len() || (j >= x.len() + 3 && delim_at(
                y,
                j - x.len() - 3,
            ))),
{
    let t = x + delim() + y;
    let n = x.len() as int;
    assert(t.len() == n + 3 + y.len());
    assert forall|j: int| delim_at(t, j) <==> (j == n || (j >= n + 3 && delim_at(y, j - n - 3))) by {
        assert(t[n] == ']');
        assert(t[n + 1] == '$');
        assert(t[n + 2] == '[');
        if 0 <= j && j + 3 <= n {
            assert(t[j] == x[j]);
            assert(t[j + 1] == x[j + 1]);
            assert(t[j + 2] == x[j + 2]);
            if delim_at(t, j) {
                assert(delim_at(x, j));
            }
        } else if j >= n + 3 {
            let k = j - n - 3;
            if 0 <= k && k + 3 <= y.len() {
                assert(t[j] == y[k]);
                assert(t[j + 1] == y[k + 1]);
                assert(t[j + 2] == y[k + 2]);
            }
        }
    }
}

/// The delimiters of a well-formed run key are exactly the two that
/// separate its components.
pub proof fn lemma_delims_of_test_key(p: Seq<char>, s: Seq<char>, r: Seq<char>)
    requires
        !has_delim(p),
        !has_delim(s),
        !has_delim(r),
    ensures
        forall|j: int|
            #![trigger delim_at(test_key(p, s, r), j)]
            delim_at(test_key(p, s, r), j) <==> (j == p.len() || j == (p.len() + 3 + s.len()) as int),
{
    let rest = s + delim() + r;
    assert(test_key(p, s, r) =~= p + delim() + rest);
    lemma_delims_of_join(s, r);
    lemma_delims_of_join(p, rest);
    assert forall|j: int| !delim_at(r, j) by {}
}

/// Splitting an encoded run key gives back its components, and no other
/// components: decoding inverts encoding.
pub proof fn lemma_decode_encode(p: Seq<char>, s: Seq<char>, r: Seq<char>)
    requires
        !has_delim(p),
        !has_delim(s),
        !has_delim(r),
    ensures
        splits_into(test_key(p, s, r), p, s, r),
        forall|a: Seq<char>, b: Seq<char>, c: Seq<char>|
            #![trigger splits_into(test_key(p, s, r), a, b, c)]
            splits_into(test_key(p, s, r), a, b, c) ==> a == p && b == s && c == r,
{
    let t = test_key(p, s, r);
    lemma_delims_of_test_key(p, s, r);
    assert forall|a: Seq<char>, b: Seq<char>, c: Seq<char>|
        splits_into(t, a, b, c) implies a == p && b == s && c == r by {
        lemma_delims_of_test_key(a, b, c);
        assert(delim_at(t, a.len() as int));
        assert(delim_at(t, p.len() as int));
        assert(a.len() == p.len());
        assert(delim_at(t, (a.len() + 3 + b.len()) as int));
        assert(b.len() == s.len());
        assert(a =~= t.subrange(0, a.len() as int));
        assert(p =~= t.subrange(0, p.len() as int));
        let sb = (p.len() + 3) as int;
        assert(b =~= t.subrange(sb, sb + b.len()));
        assert(s =~= t.subrange(sb, sb + s.len()));
        let sc = (sb + s.len() + 3) as int;
        assert(c =~= t.subrange(sc, t.len() as int));
        assert(r =~= t.subrange(sc, t.len() as int));
    }
}

/// The topic of a run key is the key of its script: the last delimiter of
/// `p ]$[ s ]$[ r` is the one before `r`.
pub proof fn lemma_topic_of_test_key(p: Seq<char>, s: Seq<char>, r: Seq<char>)
    requires
        !has_delim(p),
        !has_delim(s),
        !has_delim(r),
    ensures
        last_delim_at(test_key(p, s, r), (p.len() + 3 + s.len()) as int),
        test_key(p, s, r).subrange(0, (p.len() + 3 + s.len()) as int) == script_key(p, s),
{
    lemma_delims_of_test_key(p, s, r);
    assert(test_key(p, s, r).subrange(0, (p.len() + 3 + s.len()) as int) =~= script_key(p, s));
}

/// Positions `i .. i + 3` of `t` hold the delimiter.
fn delim_starts_at(t: &str, n: usize, i: usize) -> (r: bool)
    requires
        n == t@.len(),
        i + 3 <= n,
    ensures
        r == delim_at(t@, i as int),
{
    t.get_char(i) == ']' && t.get_char(i + 1) == '$' && t.get_char(i + 2) == '['
}

/// The positions of all delimiters in `t`, in increasing order.
fn delim_positions(t: &str) -> (found: Vec<usize>)
    ensures
        forall|k: int| 0 <= k < found.len() ==> delim_at(t@, found[k] as int),
        forall|k: int, l: int| 0 <= k < l < found.len() ==> found[k] < found[l],
        forall|j: int|
            delim_at(t@, j) ==> exists|k: int| 0 <= k < found.len() && found[k] == j,
{
    let n = t.unicode_len();
    let mut found: Vec<usize> = Vec::new();
    let mut i: usize = 0;
    while i < n && n - i >= 3
        invariant
            n == t@.len(),
            i <= n,
            forall|k: int| 0 <= k < found.len() ==> delim_at(t@, found[k] as int) && found[k] < i,
            forall|k: int, l: int| 0 <= k < l < found.len() ==> found[k] < found[l],
            forall|j: int|
                0 <= j < i && delim_at(t@, j) ==> exists|k: int|
                    0 <= k < found.len() && found[k] == j,
        decreases n - i,
    {
        let ghost before = found@;
        if delim_starts_at(t, n, i) {
            found.push(i);
        }
        assert forall|j: int| 0 <= j < i + 1 && delim_at(t@, j) implies exists|k: int|
            0 <= k < found.len() && found[k] == j by {
            if j == i {
                assert(found[found.len() - 1] == i);
            } else {
                let k = choose|k: int| 0 <= k < before.len() && before[k] == j;
                assert(found[k] == j);
            }
        }
        i = i + 1;
    }
    found
}

/// The topic key of a script.
pub fn encode_script_id(project_id: &str, script_id: &str) -> (r: String)
    ensures
        r@ == script_key(project_id@, script_id@),
{
    proof {
        reveal_strlit("]$[");
    }
    let mut r = String::from_str(project_id);
    r.append("]$[");
    r.append(script_id);
    assert(r@ =~= script_key(project_id@, script_id@));
    r
}

/// The key of one test run.
pub fn encode_test_id(project_id: &str, script_id: &str, test_id: &str) -> (r: String)
    ensures
        r@ == test_key(project_id@, script_id@, test_id@),
{
    proof {
        reveal_strlit("]$[");
    }
    let mut r = String::from_str(project_id);
    r.append("]$[");
    r.append(script_id);
    r.append("]$[");
    r.append(test_id);
    assert(r@ =~= test_key(project_id@, script_id@, test_id@));
    r
}

/// Splits a run key into project, script and run. A key with other than two
/// delimiters has no such split and gives `None`.
pub fn decode_test_id(test_id: &str) -> (r: Option<(&str, &str, &str)>)
    ensures
        match r {
            Some((p, s, t)) => splits_into(test_id@, p@, s@, t@),
            None => forall|p: Seq<char>, s: Seq<char>, t: Seq<char>|
                !splits_into(test_id@, p, s, t),
        },
{
    let n = test_id.unicode_len();
    let found = delim_positions(test_id);
    if found.len() == 2 {
        let i1 = found[0];
        let i2 = found[1];
        let ghost t = test_id@;
        assert(delim_at(t, i1 as int) && delim_at(t, i2 as int));
        assert(i1 + 3 <= i2);
        let p = test_id.substring_char(0, i1);
        let s = test_id.substring_char(i1 + 3, i2);
        let r = test_id.substring_char(i2 + 3, n);
        proof {
            assert(t =~= test_key(p@, s@, r@));
            assert forall|j: int| !delim_at(p@, j) by {
                if delim_at(p@, j) {
                    assert(delim_at(t, j));
                }
            }
            assert forall|j: int| !delim_at(s@, j) by {
                if delim_at(s@, j) {
                    assert(delim_at(t, j + i1 + 3));
                }
            }
            assert forall|j: int| !delim_at(r@, j) by {
                if delim_at(r@, j) {
                    assert(delim_at(t, j + i2 + 3));
                }
            }
        }
        Some((p, s, r))
    } else {
        proof {
            assert forall|p: Seq<char>, s: Seq<char>, r: Seq<char>|
                !splits_into(test_id@, p, s, r) by {
                if splits_into(test_id@, p, s, r) {
                    lemma_delims_of_test_key(p, s, r);
                    let x = p.len() as int;
                    let y = (p.len() + 3 + s.len()) as int;
                    assert(delim_at(test_id@, x));
                    assert(delim_at(test_id@, y));
                    let kx = choose|k: int| 0 <= k < found.len() && found[k] == x;
                    let ky = choose|k: int| 0 <= k < found.len() && found[k] == y;
                    if found.len() > 2 {
                        assert(delim_at(test_id@, found[2] as int));
                        assert(delim_at(test_id@, found[1] as int));
                        assert(delim_at(test_id@, found[0] as int));
                    }
                }
            }
        }
        None
    }
}

/// The topic of a run key: everything before its last delimiter, or `None`
/// where the key holds no delimiter.
pub fn get_global_script_id(test_id: &str) -> (r: Option<&str>)
    ensures
        match r {
            Some(g) => exists|j: int| last_delim_at(test_id@, j) && g@ == test_id@.subrange(0, j),
            None => !has_delim(test_id@),
        },
{
    let n = test_id.unicode_len();
    let mut last: Option<usize> = None;
    let mut i: usize = 0;
    while i < n && n - i >= 3
        invariant
            n == test_id@.len(),
            i <= n,
            match last {
                Some(j) => delim_at(test_id@, j as int) && j < i && forall|k: int|
                    j < k < i ==> !delim_at(test_id@, k),
                None => forall|k: int| k < i ==> !delim_at(test_id@, k),
            },
        decreases n - i,
    {
        if delim_starts_at(test_id, n, i) {
            last = Some(i);
        }
        i = i + 1;
    }
    match last {
        Some(j) => {
            let g = test_id.substring_char(0, j);
            assert(last_delim_at(test_id@, j as int));
            Some(g)
        },
        None => None,
    }
}

/// The run key in the format of the first single-node release.
pub fn get_test_id(project_id: &str, script_id: &str, test_id: &str) -> (r: String)
    ensures
        r@ == legacy_test_key(project_id@, script_id@, test_id@),
{
    proof {
        reveal_strlit("$[");
        reveal_strlit("]$[");
        reveal_strlit("]$");
    }
    let mut r = String::from_str("$[");
    r.append(project_id);
    r.append("]$[");
    r.append(script_id);
    r.append("]$[");
    r.append(test_id);
    r.append("]$");
    assert(r@ =~= legacy_test_key(project_id@, script_id@, test_id@));
    r
}

} // verus!
