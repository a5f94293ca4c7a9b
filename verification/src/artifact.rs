use vstd::prelude::*;

verus! {

/// The character for one decimal digit.
pub open spec fn dec_digit_char(d: nat) -> char {
    if d == 0 {
        '0'
    } else if d == 1 {
        '1'
    } else if d == 2 {
        '2'
    } else if d == 3 {
        '3'
    } else if d == 4 {
        '4'
    } else if d == 5 {
        '5'
    } else if d == 6 {
        '6'
    } else if d == 7 {
        '7'
    } else if d == 8 {
        '8'
    } else {
        '9'
    }
}

/// The decimal rendering of `n`, most significant digit first, without
/// leading zeros (except for `n == 0` itself).
pub open spec fn dec_str(n: nat) -> Seq<char>
    decreases n,
{
    if n < 10 {
        seq![dec_digit_char(n)]
    } else {
        dec_str(n / 10).push(dec_digit_char(n % 10))
    }
}

fn digit_literal(d: u64) -> (r: &'static str)
    requires
        d < 10,
    ensures
        r@ == seq![dec_digit_char(d as nat)],
{
    proof {
        reveal_strlit("0");
        reveal_strlit("1");
        reveal_strlit("2");
        reveal_strlit("3");
        reveal_strlit("4");
        reveal_strlit("5");
        reveal_strlit("6");
        reveal_strlit("7");
        reveal_strlit("8");
        reveal_strlit("9");
    }
    let r = if d == 0 {
        "0"
    } else if d == 1 {
        "1"
    } else if d == 2 {
        "2"
    } else if d == 3 {
        "3"
    } else if d == 4 {
        "4"
    } else if d == 5 {
        "5"
    } else if d == 6 {
        "6"
    } else if d == 7 {
        "7"
    } else if d == 8 {
        "8"
    } else {
        "9"
    };
    proof {
        assert(r@ =~= seq![dec_digit_char(d as nat)]);
    }
    r
}

/// Render `n` in decimal.
pub fn u64_to_dec(n: u64) -> (s: String)
    ensures
        s@ == dec_str(n as nat),
    decreases n,
{
    if n < 10 {
        String::from_str(digit_literal(n))
    } else {
        let mut s = u64_to_dec(n / 10);
        s.append(digit_literal(n % 10));
        proof {
            assert(s@ =~= dec_str(n as nat));
        }
        s
    }
}

/// The generated name of one backup artifact: the millisecond timestamp of
/// the snapshot, a `#` separator, and the base name of the save file.
pub open spec fn artifact_name_spec(ts: nat, base: Seq<char>) -> Seq<char> {
    dec_str(ts) + seq!['#'] + base
}

/// Build the artifact name for a snapshot taken at `ts_millis` of a save
/// file whose base name is `base`.
pub fn artifact_name(ts_millis: u64, base: &str) -> (name: String)
    ensures
        name@ == artifact_name_spec(ts_millis as nat, base@),
{
    let mut s = u64_to_dec(ts_millis);
    s.append("#");
    s.append(base);
    proof {
        reveal_strlit("#");
        assert(s@ =~= artifact_name_spec(ts_millis as nat, base@));
    }
    s
}

/// Strict lexicographic order on character sequences, by code point.
pub open spec fn lex_lt(a: Seq<char>, b: Seq<char>) -> bool
    decreases a.len(),
{
    b.len() > 0 && (a.len() == 0 || (a[0] as int) < (b[0] as int) || (a[0] == b[0] && lex_lt(
        a.drop_first(),
        b.drop_first(),
    )))
}

proof fn lemma_lex_lt_neq(a: Seq<char>, b: Seq<char>)
    requires
        lex_lt(a, b),
    ensures
        a != b,
    decreases a.len(),
{
    if a.len() == 0 {
        assert(a.len() != b.len());
    } else if (a[0] as int) < (b[0] as int) {
        assert(a[0] != b[0]);
    } else {
        lemma_lex_lt_neq(a.drop_first(), b.drop_first());
    }
}

proof fn lemma_lex_lt_push_same_prefix(p: Seq<char>, c1: char, c2: char)
    requires
        (c1 as int) < (c2 as int),
    ensures
        lex_lt(p.push(c1), p.push(c2)),
    decreases p.len(),
{
    if p.len() == 0 {
        assert(p.push(c1) =~= seq![c1]);
        assert(p.push(c2) =~= seq![c2]);
    } else {
        lemma_lex_lt_push_same_prefix(p.drop_first(), c1, c2);
        assert(p.push(c1).drop_first() =~= p.drop_first().push(c1));
        assert(p.push(c2).drop_first() =~= p.drop_first().push(c2));
        assert(p.push(c1)[0] == p[0] && p.push(c2)[0] == p[0]);
    }
}

proof fn lemma_lex_lt_push(a: Seq<char>, b: Seq<char>, x: char, y: char)
    requires
        lex_lt(a, b),
        a.len() == b.len(),
    ensures
        lex_lt(a.push(x), b.push(y)),
    decreases a.len(),
{
    assert(a.len() > 0);
    if (a[0] as int) < (b[0] as int) {
        assert(a.push(x)[0] == a[0] && b.push(y)[0] == b[0]);
    } else {
        lemma_lex_lt_push(a.drop_first(), b.drop_first(), x, y);
        assert(a.push(x).drop_first() =~= a.drop_first().push(x));
        assert(b.push(y).drop_first() =~= b.drop_first().push(y));
        assert(a.push(x)[0] == a[0] && b.push(y)[0] == b[0]);
    }
}

proof fn lemma_lex_lt_append(a: Seq<char>, b: Seq<char>, r: Seq<char>)
    requires
        lex_lt(a, b),
        a.len() == b.len(),
    ensures
        lex_lt(a + r, b + r),
    decreases a.len(),
{
    assert(a.len() > 0);
    if (a[0] as int) < (b[0] as int) {
        assert((a + r)[0] == a[0] && (b + r)[0] == b[0]);
        assert((b + r).len() > 0);
    } else {
        lemma_lex_lt_append(a.drop_first(), b.drop_first(), r);
        assert((a + r).drop_first() =~= a.drop_first() + r);
        assert((b + r).drop_first() =~= b.drop_first() + r);
        assert((a + r)[0] == a[0] && (b + r)[0] == b[0]);
    }
}

proof fn lemma_dec_digit_char_order(d1: nat, d2: nat)
    requires
        d1 < d2 < 10,
    ensures
        (dec_digit_char(d1) as int) < (dec_digit_char(d2) as int),
{
}

/// Decimal renderings of distinct numbers of the same digit count compare
/// lexicographically exactly as the numbers do.
pub proof fn lemma_dec_str_order(m: nat, n: nat)
    requires
        m < n,
        dec_str(m).len() == dec_str(n).len(),
    ensures
        lex_lt(dec_str(m), dec_str(n)),
    decreases n,
{
    if n < 10 {
        lemma_dec_digit_char_order(m, n);
        assert(lex_lt(seq![dec_digit_char(m)], seq![dec_digit_char(n)]));
    } else {
        assert(dec_str(n).len() == dec_str(n / 10).len() + 1);
        if m < 10 {
            lemma_dec_str_min_len(n / 10);
            assert(false);
        } else {
            assert(dec_str(m).len() == dec_str(m / 10).len() + 1);
            vstd::arithmetic::div_mod::lemma_div_is_ordered(m as int, n as int, 10);
            if m / 10 == n / 10 {
                assert(m % 10 < n % 10) by (nonlinear_arith)
                    requires
                        m < n,
                        m / 10 == n / 10,
                        m >= 10,
                {}
                lemma_lex_lt_push_same_prefix(
                    dec_str(m / 10),
                    dec_digit_char(m % 10),
                    dec_digit_char(n % 10),
                );
                lemma_dec_digit_char_order(m % 10, n % 10);
            } else {
                lemma_dec_str_order(m / 10, n / 10);
                lemma_lex_lt_push(
                    dec_str(m / 10),
                    dec_str(n / 10),
                    dec_digit_char(m % 10),
                    dec_digit_char(n % 10),
                );
            }
        }
    }
}

proof fn lemma_dec_str_min_len(n: nat)
    ensures
        dec_str(n).len() >= 1,
    decreases n,
{
    if n >= 10 {
        lemma_dec_str_min_len(n / 10);
    }
}

/// Artifact names of snapshots of the same save file are strictly
/// increasing — lexicographically, as long as the two timestamps render to
/// the same digit count (true of millisecond timestamps under normal clock
/// behaviour for centuries at a stretch) — and in particular distinct.
pub proof fn lemma_artifact_names_increase(ts1: nat, ts2: nat, base: Seq<char>)
    requires
        ts1 < ts2,
        dec_str(ts1).len() == dec_str(ts2).len(),
    ensures
        lex_lt(artifact_name_spec(ts1, base), artifact_name_spec(ts2, base)),
        artifact_name_spec(ts1, base) != artifact_name_spec(ts2, base),
{
    lemma_dec_str_order(ts1, ts2);
    lemma_lex_lt_append(dec_str(ts1), dec_str(ts2), seq!['#'] + base);
    assert(dec_str(ts1) + (seq!['#'] + base) =~= artifact_name_spec(ts1, base));
    assert(dec_str(ts2) + (seq!['#'] + base) =~= artifact_name_spec(ts2, base));
    lemma_lex_lt_neq(artifact_name_spec(ts1, base), artifact_name_spec(ts2, base));
}

/// Artifact names embed their timestamp injectively: snapshots taken at
/// different instants never collide, whatever the digit counts.
pub proof fn lemma_artifact_names_distinct(ts1: nat, ts2: nat, base: Seq<char>)
    requires
        ts1 != ts2,
    ensures
        artifact_name_spec(ts1, base) != artifact_name_spec(ts2, base),
{
    if dec_str(ts1).len() != dec_str(ts2).len() {
        assert(artifact_name_spec(ts1, base).len() != artifact_name_spec(ts2, base).len());
    } else if ts1 < ts2 {
        lemma_artifact_names_increase(ts1, ts2, base);
    } else {
        lemma_artifact_names_increase(ts2, ts1, base);
    }
}

/// A path separator, either style.
pub open spec fn is_sep(c: char) -> bool {
    c == '/' || c == '\\'
}

/// The portion of a path after its last separator: the file's base name.
pub open spec fn base_name_of(s: Seq<char>) -> Seq<char>
    decreases s.len(),
{
    if s.len() == 0 {
        s
    } else if is_sep(s.last()) {
        Seq::empty()
    } else {
        base_name_of(s.drop_last()).push(s.last())
    }
}

/// Extract the base name of a path: everything after the last `/` or `\`.
pub fn file_base_name(path: &str) -> (r: &str)
    ensures
        r@ == base_name_of(path@),
{
    let n = path.unicode_len();
    let mut i = n;
    proof {
        assert(path@.take(n as int) =~= path@);
        assert(base_name_of(path@) + path@.skip(n as int) =~= base_name_of(path@));
    }
    while i > 0 && !is_sep_char(path.get_char(i - 1))
        invariant
            i <= n,
            n == path@.len(),
            base_name_of(path@) == base_name_of(path@.take(i as int)) + path@.skip(i as int),
        decreases i,
    {
        proof {
            lemma_base_name_step(path@, i as int);
        }
        i = i - 1;
    }
    proof {
        if i > 0 {
            assert(is_sep(path@.take(i as int).last()));
            assert(base_name_of(path@.take(i as int)) =~= Seq::<char>::empty());
        } else {
            assert(path@.take(0) =~= Seq::<char>::empty());
            assert(base_name_of(path@) =~= path@.skip(0));
        }
        assert(base_name_of(path@) =~= path@.skip(i as int));
        assert(path@.skip(i as int) =~= path@.subrange(i as int, n as int));
    }
    path.substring_char(i, n)
}

/// Peeling one non-separator character off the end of the prefix keeps the
/// decomposition of `base_name_of` intact.
proof fn lemma_base_name_step(s: Seq<char>, i: int)
    requires
        0 < i <= s.len(),
        !is_sep(s[i - 1]),
    ensures
        base_name_of(s.take(i)) + s.skip(i) =~= base_name_of(s.take(i - 1)) + s.skip(i - 1),
{
    let p = s.take(i);
    assert(p.last() == s[i - 1]);
    assert(p.drop_last() =~= s.take(i - 1));
    assert(base_name_of(p) == base_name_of(s.take(i - 1)).push(s[i - 1]));
    assert(base_name_of(s.take(i - 1)).push(s[i - 1]) + s.skip(i) =~= base_name_of(
        s.take(i - 1),
    ) + s.skip(i - 1));
}

fn is_sep_char(c: char) -> (r: bool)
    ensures
        r == is_sep(c),
{
    c == '/' || c == '\\'
}

/// The destination path of the local backup copy: the backup directory with
/// the artifact name appended, adding a separator unless the directory
/// already ends in one.
pub open spec fn joined_path_spec(dir: Seq<char>, name: Seq<char>) -> Seq<char> {
    if dir.len() > 0 && is_sep(dir.last()) {
        dir + name
    } else {
        dir + seq!['/'] + name
    }
}

/// Join the backup output directory and an artifact name into one path.
pub fn joined_path(dir: &str, name: &str) -> (r: String)
    ensures
        r@ == joined_path_spec(dir@, name@),
{
    let n = dir.unicode_len();
    let mut s = String::from_str(dir);
    if n == 0 || !is_sep_char(dir.get_char(n - 1)) {
        s.append("/");
        proof {
            reveal_strlit("/");
            assert(s@ =~= dir@ + seq!['/']);
        }
    }
    s.append(name);
    proof {
        assert(s@ =~= joined_path_spec(dir@, name@));
    }
    s
}

/// Everything one backup needs by way of naming: the artifact name built
/// from the snapshot instant and the save file's base name, and the
/// destination path of the local copy inside the backup directory.
pub fn backup_paths(ts_millis: u64, save_path: &str, backup_dir: &str) -> (r: (String, String))
    ensures
        r.0@ == artifact_name_spec(ts_millis as nat, base_name_of(save_path@)),
        r.1@ == joined_path_spec(backup_dir@, r.0@),
{
    let base = file_base_name(save_path);
    let name = artifact_name(ts_millis, base);
    let dest = joined_path(backup_dir, name.as_str());
    (name, dest)
}

} // verus!
