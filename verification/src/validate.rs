//! The validator: the shared name namespace over flags, short forms and
//! positionals, the duplicate scan, and the synthetic help flag.

use vstd::prelude::*;
use crate::schema::{App, AppV, Flag, FlagV, Positional, PositionalV, char_to_string};
use crate::types::ValueType;
use crate::error::{Error, ErrorV, DupKind};

verus! {

/// The namespace keys a flag occupies: its long name, and, when a short form
/// is present, the one-character string of the short form.
pub open spec fn flag_keys(f: FlagV) -> Seq<Seq<char>> {
    if f.short == '\0' {
        seq![f.name]
    } else {
        seq![f.name, seq![f.short]]
    }
}

/// The namespace keys of a flag sequence, in declaration order.
pub open spec fn all_flag_keys(fs: Seq<FlagV>) -> Seq<Seq<char>> {
    fs.flat_map(|f: FlagV| flag_keys(f))
}

/// The names of a positional sequence, in declaration order.
pub open spec fn pos_names(ps: Seq<PositionalV>) -> Seq<Seq<char>> {
    ps.map_values(|p: PositionalV| p.name)
}

/// The combined namespace of an app, in scan order: each flag's keys in
/// declaration order, then each positional's name.
pub open spec fn namespace(app: AppV) -> Seq<Seq<char>> {
    all_flag_keys(app.flags) + pos_names(app.positionals)
}

/// One step of the duplicate scan over the flags, threading the set of names
/// seen so far. The reported name is always the flag's long name, also when
/// its short form is the key that collided.
pub open spec fn scan_flags(fs: Seq<FlagV>, seen: Set<Seq<char>>) -> Result<
    Set<Seq<char>>,
    ErrorV,
>
    decreases fs.len(),
{
    if fs.len() == 0 {
        Ok(seen)
    } else {
        let f = fs[0];
        if seen.contains(f.name) {
            Err(ErrorV::DuplicateName { kind: DupKind::FlagName, name: f.name })
        } else {
            let seen1 = seen.insert(f.name);
            if f.short != '\0' && seen1.contains(seq![f.short]) {
                Err(ErrorV::DuplicateName { kind: DupKind::FlagShort, name: f.name })
            } else {
                let seen2 = if f.short == '\0' {
                    seen1
                } else {
                    seen1.insert(seq![f.short])
                };
                scan_flags(fs.drop_first(), seen2)
            }
        }
    }
}

/// The duplicate scan over the positionals, after the flags.
pub open spec fn scan_positionals(ps: Seq<PositionalV>, seen: Set<Seq<char>>) -> Result<
    Set<Seq<char>>,
    ErrorV,
>
    decreases ps.len(),
{
    if ps.len() == 0 {
        Ok(seen)
    } else {
        let p = ps[0];
        if seen.contains(p.name) {
            Err(ErrorV::DuplicateName { kind: DupKind::PositionalName, name: p.name })
        } else {
            scan_positionals(ps.drop_first(), seen.insert(p.name))
        }
    }
}

/// The outcome of validating an app: `None` on success, or the first
/// duplicate found, in scan order.
pub open spec fn check_result(app: AppV) -> Option<ErrorV> {
    match scan_flags(app.flags, Set::empty()) {
        Err(e) => Some(e),
        Ok(seen) => match scan_positionals(app.positionals, seen) {
            Err(e) => Some(e),
            Ok(s) => None,
        },
    }
}

/// The set of name keys held by a vector of seen names.
pub open spec fn seen_model(s: Seq<String>) -> Set<Seq<char>> {
    Set::new(|k: Seq<char>| exists|i: int| 0 <= i < s.len() && (#[trigger] s[i])@ == k)
}

proof fn lemma_seen_push(s: Seq<String>, x: String)
    ensures
        seen_model(s.push(x)) == seen_model(s).insert(x@),
{
    let t = s.push(x);
    assert forall|k: Seq<char>| seen_model(t).contains(k) implies seen_model(s).insert(
        x@,
    ).contains(k) by {
        let i = choose|i: int| 0 <= i < t.len() && (#[trigger] t[i])@ == k;
        if i < s.len() {
            assert(s[i]@ == k);
        } else {
            assert(t[i] == x);
        }
    }
    assert forall|k: Seq<char>| seen_model(s).insert(x@).contains(k) implies seen_model(
        t,
    ).contains(k) by {
        if k == x@ {
            assert(t[s.len() as int]@ == k);
        } else {
            let i = choose|i: int| 0 <= i < s.len() && (#[trigger] s[i])@ == k;
            assert(t[i]@ == k);
        }
    }
    assert(seen_model(t) =~= seen_model(s).insert(x@));
}

fn seen_contains(seen: &Vec<String>, key: &String) -> (r: bool)
    ensures
        r == seen_model(seen@).contains(key@),
{
    let mut i: usize = 0;
    while i < seen.len()
        invariant
            i <= seen@.len(),
            forall|j: int| 0 <= j < i ==> (#[trigger] seen@[j])@ != key@,
        decreases seen@.len() - i,
    {
        if seen[i].eq(key) {
            proof {
                assert((seen@[i as int])@ == key@);
            }
            return true;
        }
        i = i + 1;
    }
    false
}

impl App {
    /// Scan the combined namespace for duplicates. Succeeds exactly when all
    /// keys are pairwise distinct; on failure, reports the first collision in
    /// scan order, naming the offending flag or positional.
    pub fn check_app(&self) -> (r: Result<(), Error>)
        ensures
            r is Ok <==> namespace(self@).no_duplicates(),
            r is Ok <==> check_result(self@) is None,
            r matches Err(e) ==> check_result(self@) == Some(e@),
    {
        let ghost fsfull = self@.flags;
        let mut seen: Vec<String> = Vec::new();
        proof {
            assert(seen_model(seen@) =~= Set::<Seq<char>>::empty());
            assert(fsfull.skip(0) =~= fsfull);
        }
        let mut i: usize = 0;
        while i < self.flags.len()
            invariant
                i <= self.flags.len(),
                fsfull == self@.flags,
                self@.flags == self.flags@.map_values(|f: Flag| f@),
                scan_flags(fsfull, Set::empty()) == scan_flags(
                    fsfull.skip(i as int),
                    seen_model(seen@),
                ),
            decreases self.flags@.len() - i,
        {
            let ghost rem = fsfull.skip(i as int);
            let flag = &self.flags[i];
            proof {
                assert(rem[0] == fsfull[i as int]);
                assert(fsfull[i as int] == flag@);
                assert(rem.drop_first() =~= fsfull.skip(i as int + 1));
            }
            let ghost seen_before = seen_model(seen@);
            if seen_contains(&seen, &flag.name) {
                proof {
                    lemma_check_ok_iff_distinct(self@);
                }
                return Err(
                    Error::DuplicateName { kind: DupKind::FlagName, name: flag.name.clone() },
                );
            }
            let ghost prev_names = seen@;
            seen.push(flag.name.clone());
            proof {
                lemma_seen_push(prev_names, flag.name);
                assert(seen@ == prev_names.push(flag.name));
                assert(seen_model(seen@) == seen_before.insert(flag@.name));
            }
            if flag.short != '\0' {
                let short_str = char_to_string(flag.short);
                if seen_contains(&seen, &short_str) {
                    proof {
                        lemma_check_ok_iff_distinct(self@);
                    }
                    return Err(
                        Error::DuplicateName {
                            kind: DupKind::FlagShort,
                            name: flag.name.clone(),
                        },
                    );
                }
                let ghost prev_with_name = seen@;
                seen.push(short_str);
                proof {
                    lemma_seen_push(prev_with_name, short_str);
                    assert(seen@ == prev_with_name.push(short_str));
                    assert(seen_model(seen@) == seen_before.insert(flag@.name).insert(
                        seq![flag@.short],
                    ));
                }
            }
            proof {
                assert(scan_flags(rem, seen_before) == scan_flags(
                    fsfull.skip(i as int + 1),
                    seen_model(seen@),
                ));
            }
            i = i + 1;
        }
        proof {
            assert(fsfull.skip(self.flags@.len() as int) =~= Seq::<FlagV>::empty());
        }
        let ghost seen_flags = seen_model(seen@);
        let ghost psfull = self@.positionals;
        proof {
            assert(psfull.skip(0) =~= psfull);
        }
        let mut j: usize = 0;
        while j < self.positionals.len()
            invariant
                j <= self.positionals.len(),
                psfull == self@.positionals,
                self@.positionals == self.positionals@.map_values(|p: Positional| p@),
                scan_flags(self@.flags, Set::empty()) == Ok::<Set<Seq<char>>, ErrorV>(seen_flags),
                scan_positionals(psfull, seen_flags) == scan_positionals(
                    psfull.skip(j as int),
                    seen_model(seen@),
                ),
            decreases self.positionals@.len() - j,
        {
            let ghost rem = psfull.skip(j as int);
            let pos = &self.positionals[j];
            proof {
                assert(rem[0] == psfull[j as int]);
                assert(psfull[j as int] == pos@);
                assert(rem.drop_first() =~= psfull.skip(j as int + 1));
            }
            let ghost seen_before = seen_model(seen@);
            if seen_contains(&seen, &pos.name) {
                proof {
                    lemma_check_ok_iff_distinct(self@);
                }
                return Err(
                    Error::DuplicateName {
                        kind: DupKind::PositionalName,
                        name: pos.name.clone(),
                    },
                );
            }
            let ghost prev_names = seen@;
            seen.push(pos.name.clone());
            proof {
                lemma_seen_push(prev_names, pos.name);
                assert(seen@ == prev_names.push(pos.name));
                assert(scan_positionals(rem, seen_before) == scan_positionals(
                    psfull.skip(j as int + 1),
                    seen_model(seen@),
                ));
            }
            j = j + 1;
        }
        proof {
            assert(psfull.skip(self.positionals@.len() as int) =~= Seq::<PositionalV>::empty());
            lemma_check_ok_iff_distinct(self@);
        }
        Ok(())
    }
}

/// The synthetic help flag: boolean, short 'h', fixed help text.
pub open spec fn help_flag_view() -> FlagV {
    FlagV {
        name: "help"@,
        ty: ValueType::Boolean,
        help: "print this help and exit"@,
        multiple: false,
        short: 'h',
        default: None,
        aliases: Seq::empty(),
        value_name: None,
        env: None,
    }
}

/// An app with the synthetic help flag appended after all user-declared
/// flags, unless `no_auto_help` suppresses it.
pub open spec fn with_auto_help(app: AppV) -> AppV {
    if app.no_auto_help {
        app
    } else {
        AppV { flags: app.flags.push(help_flag_view()), ..app }
    }
}

/// Append the synthetic help flag unless `no_auto_help` is set. User flags
/// keep their original order and indices.
pub fn inject_help(app: &mut App)
    ensures
        final(app)@ == with_auto_help(old(app)@),
{
    if !app.no_auto_help {
        let help_flag = Flag {
            name: "help".to_owned(),
            value_type: ValueType::Boolean,
            help: "print this help and exit".to_owned(),
            multiple: false,
            short: 'h',
            default: None,
            aliases: Vec::new(),
            value_name: None,
            env: None,
        };
        proof {
            assert(help_flag@.aliases =~= Seq::<Seq<char>>::empty());
            assert(help_flag@ == help_flag_view());
        }
        app.flags.push(help_flag);
        proof {
            assert(app@.flags =~= with_auto_help(old(app)@).flags);
        }
    }
}

/// The help-injection law: with `no_auto_help` unset the prepared flag
/// sequence ends with the synthetic boolean help flag (short 'h'), appended
/// after all user flags, which keep their order and indices; with
/// `no_auto_help` set the app is unchanged.
pub proof fn lemma_auto_help(app: AppV)
    ensures
        !app.no_auto_help ==> with_auto_help(app).flags.len() == app.flags.len() + 1,
        !app.no_auto_help ==> with_auto_help(app).flags.last() == help_flag_view(),
        !app.no_auto_help ==> with_auto_help(app).flags.take(app.flags.len() as int) == app.flags,
        !app.no_auto_help ==> with_auto_help(app).positionals == app.positionals,
        app.no_auto_help ==> with_auto_help(app) == app,
{
    if !app.no_auto_help {
        assert(with_auto_help(app).flags.take(app.flags.len() as int) =~= app.flags);
    }
}

proof fn lemma_scan_flags_mono(fs: Seq<FlagV>, seen: Set<Seq<char>>, k: Seq<char>)
    requires
        seen.contains(k),
        scan_flags(fs, seen) is Ok,
    ensures
        scan_flags(fs, seen)->Ok_0.contains(k),
    decreases fs.len(),
{
    if fs.len() > 0 {
        let f = fs[0];
        let seen1 = seen.insert(f.name);
        let seen2 = if f.short == '\0' {
            seen1
        } else {
            seen1.insert(seq![f.short])
        };
        lemma_scan_flags_mono(fs.drop_first(), seen2, k);
    }
}

proof fn lemma_scan_flags_name_seen(fs: Seq<FlagV>, seen: Set<Seq<char>>, j: int)
    requires
        0 <= j < fs.len(),
        seen.contains(fs[j].name),
    ensures
        scan_flags(fs, seen) is Err,
    decreases fs.len(),
{
    let f = fs[0];
    if !seen.contains(f.name) {
        let seen1 = seen.insert(f.name);
        if !(f.short != '\0' && seen1.contains(seq![f.short])) {
            let seen2 = if f.short == '\0' {
                seen1
            } else {
                seen1.insert(seq![f.short])
            };
            assert(fs.drop_first()[j - 1] == fs[j]);
            lemma_scan_flags_name_seen(fs.drop_first(), seen2, j - 1);
        }
    }
}

proof fn lemma_scan_flags_short_seen(fs: Seq<FlagV>, seen: Set<Seq<char>>, j: int)
    requires
        0 <= j < fs.len(),
        fs[j].short != '\0',
        seen.contains(seq![fs[j].short]),
    ensures
        scan_flags(fs, seen) is Err,
    decreases fs.len(),
{
    let f = fs[0];
    if !seen.contains(f.name) {
        let seen1 = seen.insert(f.name);
        if !(f.short != '\0' && seen1.contains(seq![f.short])) {
            let seen2 = if f.short == '\0' {
                seen1
            } else {
                seen1.insert(seq![f.short])
            };
            assert(j != 0);
            assert(fs.drop_first()[j - 1] == fs[j]);
            lemma_scan_flags_short_seen(fs.drop_first(), seen2, j - 1);
        }
    }
}

proof fn lemma_scan_flags_result_has_name(fs: Seq<FlagV>, seen: Set<Seq<char>>, i: int)
    requires
        0 <= i < fs.len(),
        scan_flags(fs, seen) is Ok,
    ensures
        scan_flags(fs, seen)->Ok_0.contains(fs[i].name),
    decreases fs.len(),
{
    let f = fs[0];
    let seen1 = seen.insert(f.name);
    let seen2 = if f.short == '\0' {
        seen1
    } else {
        seen1.insert(seq![f.short])
    };
    if i == 0 {
        lemma_scan_flags_mono(fs.drop_first(), seen2, f.name);
    } else {
        assert(fs.drop_first()[i - 1] == fs[i]);
        lemma_scan_flags_result_has_name(fs.drop_first(), seen2, i - 1);
    }
}

proof fn lemma_scan_positionals_name_seen(ps: Seq<PositionalV>, seen: Set<Seq<char>>, j: int)
    requires
        0 <= j < ps.len(),
        seen.contains(ps[j].name),
    ensures
        scan_positionals(ps, seen) is Err,
    decreases ps.len(),
{
    let p = ps[0];
    if !seen.contains(p.name) {
        assert(ps.drop_first()[j - 1] == ps[j]);
        lemma_scan_positionals_name_seen(ps.drop_first(), seen.insert(p.name), j - 1);
    }
}

proof fn lemma_dup_flag_names_err(fs: Seq<FlagV>, seen: Set<Seq<char>>, i: int, j: int)
    requires
        0 <= i < j < fs.len(),
        fs[i].name == fs[j].name,
    ensures
        scan_flags(fs, seen) is Err,
    decreases fs.len(),
{
    let f = fs[0];
    if !seen.contains(f.name) {
        let seen1 = seen.insert(f.name);
        if !(f.short != '\0' && seen1.contains(seq![f.short])) {
            let seen2 = if f.short == '\0' {
                seen1
            } else {
                seen1.insert(seq![f.short])
            };
            assert(fs.drop_first()[j - 1] == fs[j]);
            if i == 0 {
                lemma_scan_flags_name_seen(fs.drop_first(), seen2, j - 1);
            } else {
                assert(fs.drop_first()[i - 1] == fs[i]);
                lemma_dup_flag_names_err(fs.drop_first(), seen2, i - 1, j - 1);
            }
        }
    }
}

proof fn lemma_dup_shorts_err(fs: Seq<FlagV>, seen: Set<Seq<char>>, i: int, j: int)
    requires
        0 <= i < j < fs.len(),
        fs[i].short == fs[j].short,
        fs[i].short != '\0',
    ensures
        scan_flags(fs, seen) is Err,
    decreases fs.len(),
{
    let f = fs[0];
    if !seen.contains(f.name) {
        let seen1 = seen.insert(f.name);
        if !(f.short != '\0' && seen1.contains(seq![f.short])) {
            let seen2 = if f.short == '\0' {
                seen1
            } else {
                seen1.insert(seq![f.short])
            };
            assert(fs.drop_first()[j - 1] == fs[j]);
            if i == 0 {
                lemma_scan_flags_short_seen(fs.drop_first(), seen2, j - 1);
            } else {
                assert(fs.drop_first()[i - 1] == fs[i]);
                lemma_dup_shorts_err(fs.drop_first(), seen2, i - 1, j - 1);
            }
        }
    }
}

proof fn lemma_scan_flags_err_kind(fs: Seq<FlagV>, seen: Set<Seq<char>>)
    ensures
        scan_flags(fs, seen) matches Err(e) ==> e is DuplicateName,
    decreases fs.len(),
{
    if fs.len() > 0 {
        let f = fs[0];
        if !seen.contains(f.name) {
            let seen1 = seen.insert(f.name);
            if !(f.short != '\0' && seen1.contains(seq![f.short])) {
                let seen2 = if f.short == '\0' {
                    seen1
                } else {
                    seen1.insert(seq![f.short])
                };
                lemma_scan_flags_err_kind(fs.drop_first(), seen2);
            }
        }
    }
}

proof fn lemma_scan_positionals_err_kind(ps: Seq<PositionalV>, seen: Set<Seq<char>>)
    ensures
        scan_positionals(ps, seen) matches Err(e) ==> e is DuplicateName,
    decreases ps.len(),
{
    if ps.len() > 0 {
        let p = ps[0];
        if !seen.contains(p.name) {
            lemma_scan_positionals_err_kind(ps.drop_first(), seen.insert(p.name));
        }
    }
}

/// Every validation failure is a duplicate-name error: the scan reports no
/// other kind.
pub proof fn lemma_validation_errors_are_duplicate_name(app: AppV)
    ensures
        check_result(app) matches Some(e) ==> e is DuplicateName,
{
    lemma_scan_flags_err_kind(app.flags, Set::empty());
    if scan_flags(app.flags, Set::empty()) is Ok {
        lemma_scan_positionals_err_kind(
            app.positionals,
            scan_flags(app.flags, Set::empty())->Ok_0,
        );
    }
}

/// Scenario law: two flags sharing a long name make validation fail.
pub proof fn lemma_duplicate_flag_name_rejected(app: AppV, i: int, j: int)
    requires
        0 <= i < j < app.flags.len(),
        app.flags[i].name == app.flags[j].name,
    ensures
        check_result(app) is Some,
{
    lemma_dup_flag_names_err(app.flags, Set::empty(), i, j);
}

/// Scenario law: two flags sharing a short form make validation fail.
pub proof fn lemma_duplicate_short_rejected(app: AppV, i: int, j: int)
    requires
        0 <= i < j < app.flags.len(),
        app.flags[i].short == app.flags[j].short,
        app.flags[i].short != '\0',
    ensures
        check_result(app) is Some,
{
    lemma_dup_shorts_err(app.flags, Set::empty(), i, j);
}

/// Scenario law: a flag and a positional sharing a name make validation
/// fail.
pub proof fn lemma_flag_positional_collision_rejected(app: AppV, i: int, j: int)
    requires
        0 <= i < app.flags.len(),
        0 <= j < app.positionals.len(),
        app.flags[i].name == app.positionals[j].name,
    ensures
        check_result(app) is Some,
{
    if scan_flags(app.flags, Set::empty()) is Ok {
        lemma_scan_flags_result_has_name(app.flags, Set::empty(), i);
        lemma_scan_positionals_name_seen(
            app.positionals,
            scan_flags(app.flags, Set::empty())->Ok_0,
            j,
        );
    }
}

proof fn lemma_contains_concat<A>(a: Seq<A>, b: Seq<A>, x: A)
    ensures
        (a + b).contains(x) <==> a.contains(x) || b.contains(x),
{
    if a.contains(x) {
        let i = choose|i: int| 0 <= i < a.len() && a[i] == x;
        assert((a + b)[i] == x);
    }
    if b.contains(x) {
        let i = choose|i: int| 0 <= i < b.len() && b[i] == x;
        assert((a + b)[a.len() + i] == x);
    }
    if (a + b).contains(x) {
        let i = choose|i: int| 0 <= i < (a + b).len() && (a + b)[i] == x;
        if i < a.len() {
            assert(a[i] == x);
        } else {
            assert(b[i - a.len()] == x);
        }
    }
}

proof fn lemma_no_duplicates_concat<A>(a: Seq<A>, b: Seq<A>)
    ensures
        (a + b).no_duplicates() <==> a.no_duplicates() && b.no_duplicates() && a.disjoint(b),
{
    let c = a + b;
    if a.no_duplicates() && b.no_duplicates() && a.disjoint(b) {
        assert forall|i: int, j: int|
            0 <= i < c.len() && 0 <= j < c.len() && i != j implies c[i] != c[j] by {
            if i < a.len() && j < a.len() {
            } else if i >= a.len() && j >= a.len() {
                assert(c[i] == b[i - a.len()] && c[j] == b[j - a.len()]);
            } else if i < a.len() && j >= a.len() {
                assert(c[i] == a[i] && c[j] == b[j - a.len()]);
            } else {
                assert(c[i] == b[i - a.len()] && c[j] == a[j]);
            }
        }
    }
    if c.no_duplicates() {
        assert forall|i: int, j: int|
            0 <= i < a.len() && 0 <= j < a.len() && i != j implies a[i] != a[j] by {
            assert(c[i] == a[i] && c[j] == a[j]);
        }
        assert forall|i: int, j: int|
            0 <= i < b.len() && 0 <= j < b.len() && i != j implies b[i] != b[j] by {
            assert(c[a.len() + i] == b[i] && c[a.len() + j] == b[j]);
        }
        assert forall|i: int, j: int|
            0 <= i < a.len() && 0 <= j < b.len() implies a[i] != b[j] by {
            assert(c[i] == a[i] && c[a.len() + j] == b[j]);
        }
    }
}

proof fn lemma_all_flag_keys_head(fs: Seq<FlagV>)
    requires
        fs.len() > 0,
    ensures
        all_flag_keys(fs) == flag_keys(fs[0]) + all_flag_keys(fs.drop_first()),
{
    let g = |f: FlagV| flag_keys(f);
    let m = fs.map_values(g);
    assert(m.first() == g(fs[0]));
    assert(m.drop_first() =~= fs.drop_first().map_values(g));
    assert(m.flatten() == m.first() + m.drop_first().flatten());
}

proof fn lemma_pos_names_head(ps: Seq<PositionalV>)
    requires
        ps.len() > 0,
    ensures
        pos_names(ps) == seq![ps[0].name] + pos_names(ps.drop_first()),
{
    assert(pos_names(ps) =~= seq![ps[0].name] + pos_names(ps.drop_first()));
}

proof fn lemma_scan_flags_ok(fs: Seq<FlagV>, seen: Set<Seq<char>>)
    ensures
        scan_flags(fs, seen) is Ok <==> (all_flag_keys(fs).no_duplicates() && (forall|i: int|
            0 <= i < all_flag_keys(fs).len() ==> !seen.contains(#[trigger] all_flag_keys(fs)[i]))),
        scan_flags(fs, seen) is Ok ==> scan_flags(fs, seen)->Ok_0 == seen + all_flag_keys(
            fs,
        ).to_set(),
    decreases fs.len(),
{
    let keys = all_flag_keys(fs);
    if fs.len() == 0 {
        assert(fs.map_values(|f: FlagV| flag_keys(f)).len() == 0);
        assert(keys =~= Seq::<Seq<char>>::empty());
        assert(scan_flags(fs, seen)->Ok_0 =~= seen + keys.to_set());
    } else {
        let f = fs[0];
        let hk = flag_keys(f);
        let rest = fs.drop_first();
        let rkeys = all_flag_keys(rest);
        lemma_all_flag_keys_head(fs);
        assert(keys[0] == f.name);
        if seen.contains(f.name) {
        } else {
            let seen1 = seen.insert(f.name);
            if f.short != '\0' && seen1.contains(seq![f.short]) {
                assert(keys[1] == seq![f.short]);
                if !seen.contains(seq![f.short]) {
                    assert(seq![f.short] == f.name);
                    assert(!keys.no_duplicates());
                }
            } else {
                let seen2 = if f.short == '\0' {
                    seen1
                } else {
                    seen1.insert(seq![f.short])
                };
                lemma_scan_flags_ok(rest, seen2);
                lemma_no_duplicates_concat(hk, rkeys);
                assert(hk.no_duplicates()) by {
                    if f.short != '\0' {
                        assert(!seen1.contains(seq![f.short]));
                        assert(seq![f.short] != f.name);
                    }
                }
                let rhs_rest = rkeys.no_duplicates() && (forall|i: int|
                    0 <= i < rkeys.len() ==> !seen2.contains(#[trigger] rkeys[i]));
                let rhs_full = keys.no_duplicates() && (forall|i: int|
                    0 <= i < keys.len() ==> !seen.contains(#[trigger] keys[i]));
                assert(rhs_full ==> rhs_rest) by {
                    if rhs_full {
                        assert forall|i: int|
                            0 <= i < rkeys.len() implies !seen2.contains(#[trigger] rkeys[i]) by {
                            assert(rkeys[i] == keys[hk.len() + i]);
                            assert(!seen.contains(rkeys[i]));
                            assert(keys[0] != keys[hk.len() + i]);
                            if f.short != '\0' {
                                assert(keys[1] != keys[hk.len() + i]);
                            }
                        }
                    }
                }
                assert(rhs_rest ==> rhs_full) by {
                    if rhs_rest {
                        assert(hk.disjoint(rkeys)) by {
                            assert forall|ii: int, jj: int|
                                0 <= ii < hk.len() && 0 <= jj < rkeys.len() implies hk[ii]
                                != rkeys[jj] by {
                                assert(!seen2.contains(rkeys[jj]));
                            }
                        }
                        assert(keys.no_duplicates());
                        assert forall|i: int|
                            0 <= i < keys.len() implies !seen.contains(#[trigger] keys[i]) by {
                            if i == 0 {
                            } else if f.short != '\0' && i == 1 {
                                assert(!seen1.contains(seq![f.short]));
                            } else {
                                assert(keys[i] == rkeys[i - hk.len()]);
                                assert(!seen2.contains(rkeys[i - hk.len()]));
                            }
                        }
                    }
                }
                if scan_flags(fs, seen) is Ok {
                    assert(scan_flags(fs, seen)->Ok_0 == seen2 + rkeys.to_set());
                    assert forall|k: Seq<char>|
                        (seen2 + rkeys.to_set()).contains(k) <==> (seen + keys.to_set()).contains(
                            k,
                        ) by {
                        lemma_contains_concat(hk, rkeys, k);
                        assert(hk.contains(f.name));
                        if f.short != '\0' {
                            assert(hk.contains(seq![f.short]));
                        }
                        if hk.contains(k) {
                            let i = choose|i: int| 0 <= i < hk.len() && hk[i] == k;
                            if i == 0 {
                                assert(k == f.name);
                            } else {
                                assert(k == seq![f.short]);
                            }
                        }
                    }
                    assert(seen2 + rkeys.to_set() =~= seen + keys.to_set());
                }
            }
        }
    }
}

proof fn lemma_scan_positionals_ok(ps: Seq<PositionalV>, seen: Set<Seq<char>>)
    ensures
        scan_positionals(ps, seen) is Ok <==> (pos_names(ps).no_duplicates() && (forall|i: int|
            0 <= i < pos_names(ps).len() ==> !seen.contains(#[trigger] pos_names(ps)[i]))),
    decreases ps.len(),
{
    let keys = pos_names(ps);
    if ps.len() == 0 {
        assert(keys.len() == 0);
    } else {
        let p = ps[0];
        let rest = ps.drop_first();
        let rkeys = pos_names(rest);
        lemma_pos_names_head(ps);
        assert(keys[0] == p.name);
        if seen.contains(p.name) {
        } else {
            let seen1 = seen.insert(p.name);
            lemma_scan_positionals_ok(rest, seen1);
            lemma_no_duplicates_concat(seq![p.name], rkeys);
            let rhs_rest = rkeys.no_duplicates() && (forall|i: int|
                0 <= i < rkeys.len() ==> !seen1.contains(#[trigger] rkeys[i]));
            let rhs_full = keys.no_duplicates() && (forall|i: int|
                0 <= i < keys.len() ==> !seen.contains(#[trigger] keys[i]));
            assert(rhs_full ==> rhs_rest) by {
                if rhs_full {
                    assert forall|i: int|
                        0 <= i < rkeys.len() implies !seen1.contains(#[trigger] rkeys[i]) by {
                        assert(rkeys[i] == keys[1 + i]);
                        assert(!seen.contains(rkeys[i]));
                        assert(keys[0] != keys[1 + i]);
                    }
                }
            }
            assert(rhs_rest ==> rhs_full) by {
                if rhs_rest {
                    assert(seq![p.name].disjoint(rkeys)) by {
                        assert forall|ii: int, jj: int|
                            0 <= ii < 1 && 0 <= jj < rkeys.len() implies seq![p.name][ii]
                            != rkeys[jj] by {
                            assert(!seen1.contains(rkeys[jj]));
                        }
                    }
                    assert(keys.no_duplicates());
                    assert forall|i: int|
                        0 <= i < keys.len() implies !seen.contains(#[trigger] keys[i]) by {
                        if i > 0 {
                            assert(keys[i] == rkeys[i - 1]);
                            assert(!seen1.contains(rkeys[i - 1]));
                        }
                    }
                }
            }
        }
    }
}

/// Validation succeeds exactly when the combined namespace of flag names,
/// short forms and positional names is pairwise distinct.
pub proof fn lemma_check_ok_iff_distinct(app: AppV)
    ensures
        check_result(app) is None <==> namespace(app).no_duplicates(),
{
    let fkeys = all_flag_keys(app.flags);
    let pkeys = pos_names(app.positionals);
    lemma_scan_flags_ok(app.flags, Set::empty());
    lemma_no_duplicates_concat(fkeys, pkeys);
    if scan_flags(app.flags, Set::empty()) is Ok {
        let seen = scan_flags(app.flags, Set::empty())->Ok_0;
        assert(seen == Set::<Seq<char>>::empty() + fkeys.to_set());
        lemma_scan_positionals_ok(app.positionals, seen);
        assert forall|k: Seq<char>| seen.contains(k) <==> fkeys.contains(k) by {}
        if pkeys.no_duplicates() && (forall|i: int|
            0 <= i < pkeys.len() ==> !seen.contains(#[trigger] pkeys[i])) {
            assert(fkeys.disjoint(pkeys)) by {
                assert forall|ii: int, jj: int|
                    0 <= ii < fkeys.len() && 0 <= jj < pkeys.len() implies fkeys[ii]
                    != pkeys[jj] by {
                    assert(!seen.contains(pkeys[jj]));
                    assert(fkeys.contains(fkeys[ii]));
                }
            }
        }
        if fkeys.disjoint(pkeys) {
            assert forall|i: int|
                0 <= i < pkeys.len() implies !seen.contains(#[trigger] pkeys[i]) by {
                if fkeys.contains(pkeys[i]) {
                    let ii = choose|ii: int| 0 <= ii < fkeys.len() && fkeys[ii] == pkeys[i];
                    assert(fkeys[ii] != pkeys[i]);
                }
            }
        }
    }
}

} // verus!
