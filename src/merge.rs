use vstd::prelude::*;

use crate::json::JsonValue;
use crate::stringify::{opt_text, scalar_text, stringify_json_value};

verus! {

/// Whether no two entries of `s` share a name.
pub open spec fn names_unique(s: Seq<(Seq<char>, Seq<char>)>) -> bool {
    forall|i: int, j: int|
        0 <= i < s.len() && 0 <= j < s.len() && #[trigger] s[i].0 == #[trigger] s[j].0 ==> i == j
}

/// Whether some entry of `s` is named `k`.
pub open spec fn has_name(s: Seq<(Seq<char>, Seq<char>)>, k: Seq<char>) -> bool {
    exists|i: int| 0 <= i < s.len() && #[trigger] s[i].0 == k
}

/// The position of the entry of `s` named `k`.
pub open spec fn position(s: Seq<(Seq<char>, Seq<char>)>, k: Seq<char>) -> int {
    choose|i: int| 0 <= i < s.len() && #[trigger] s[i].0 == k
}

/// The map from name to value that the entries `s` spell out.
pub open spec fn pairs_map(s: Seq<(Seq<char>, Seq<char>)>) -> Map<Seq<char>, Seq<char>> {
    Map::new(|k: Seq<char>| has_name(s, k), |k: Seq<char>| s[position(s, k)].1)
}

/// `s` with the value of `k` set to `v`: in place where `k` is present, as a
/// new last entry otherwise.
pub open spec fn upsert(s: Seq<(Seq<char>, Seq<char>)>, k: Seq<char>, v: Seq<char>) -> Seq<
    (Seq<char>, Seq<char>),
> {
    if has_name(s, k) {
        s.update(position(s, k), (k, v))
    } else {
        s.push((k, v))
    }
}

/// Whether a later member of `secrets` has the same name as the `i`-th, so
/// that the `i`-th does not count: of a repeated name, the last occurrence
/// counts.
pub open spec fn shadowed(secrets: Seq<(String, JsonValue)>, i: int) -> bool {
    exists|j: int| i < j < secrets.len() && #[trigger] secrets[j].0@ == secrets[i].0@
}

/// The entries `s` after the first `n` members of `secrets` were applied in
/// order: each member that counts and is a scalar sets its name; an array or
/// an object is passed over.
pub open spec fn apply_prefix(
    s: Seq<(Seq<char>, Seq<char>)>,
    secrets: Seq<(String, JsonValue)>,
    n: int,
) -> Seq<(Seq<char>, Seq<char>)>
    decreases n,
{
    if n <= 0 {
        s
    } else {
        let prev = apply_prefix(s, secrets, n - 1);
        if shadowed(secrets, n - 1) {
            prev
        } else {
            match scalar_text(secrets[n - 1].1) {
                Some(t) => upsert(prev, secrets[n - 1].0@, t),
                None => prev,
            }
        }
    }
}

/// The entries `s` after the secrets of one path were applied.
pub open spec fn apply_secrets(s: Seq<(Seq<char>, Seq<char>)>, secrets: Seq<(String, JsonValue)>) -> Seq<
    (Seq<char>, Seq<char>),
> {
    apply_prefix(s, secrets, secrets.len() as int)
}

/// The (name, path) of each of the first `n` members of `secrets` that counts
/// and is an array or an object, in order.
pub open spec fn skipped_prefix(path: Seq<char>, secrets: Seq<(String, JsonValue)>, n: int) -> Seq<
    (Seq<char>, Seq<char>),
>
    decreases n,
{
    if n <= 0 {
        Seq::empty()
    } else {
        let prev = skipped_prefix(path, secrets, n - 1);
        if !shadowed(secrets, n - 1) && scalar_text(secrets[n - 1].1) is None {
            prev.push((secrets[n - 1].0@, path))
        } else {
            prev
        }
    }
}

/// The (name, path) of each member of `secrets` that counts and is an array
/// or an object, in order.
pub open spec fn skipped(path: Seq<char>, secrets: Seq<(String, JsonValue)>) -> Seq<
    (Seq<char>, Seq<char>),
> {
    skipped_prefix(path, secrets, secrets.len() as int)
}

/// The secrets that one path holds, after the response was unwrapped.
#[derive(Debug)]
pub struct PathSecrets {
    pub path: String,
    pub secrets: Vec<(String, JsonValue)>,
}

/// The entries that merging the secrets of several paths gives: the paths are
/// applied from the last to the first, so that the first path that sets a
/// name decides its value.
pub open spec fn merged_entries(all: Seq<Seq<(String, JsonValue)>>) -> Seq<(Seq<char>, Seq<char>)>
    decreases all.len(),
{
    if all.len() == 0 {
        Seq::empty()
    } else {
        apply_secrets(merged_entries(all.drop_first()), all[0])
    }
}

/// The secrets of each path, in order.
pub open spec fn secrets_of_paths(paths: Seq<PathSecrets>) -> Seq<Seq<(String, JsonValue)>> {
    paths.map_values(|p: PathSecrets| p.secrets@)
}

/// The values passed over while merging `paths`, in the order in which the
/// merge meets them.
pub open spec fn merge_warnings(paths: Seq<PathSecrets>) -> Seq<(Seq<char>, Seq<char>)>
    decreases paths.len(),
{
    if paths.len() == 0 {
        Seq::empty()
    } else {
        merge_warnings(paths.drop_first()) + skipped(paths[0].path@, paths[0].secrets@)
    }
}

/// A value that was left out of the merge because it is an array or an object.
#[derive(Debug)]
pub struct UnsupportedValue {
    pub name: String,
    pub path: String,
}

impl View for UnsupportedValue {
    type V = (Seq<char>, Seq<char>);

    open spec fn view(&self) -> (Seq<char>, Seq<char>) {
        (self.name@, self.path@)
    }
}

/// The views of a list of warnings.
pub open spec fn warnings_view(w: Seq<UnsupportedValue>) -> Seq<(Seq<char>, Seq<char>)> {
    w.map_values(|u: UnsupportedValue| u@)
}

/// Variables by name, each name once, in the order in which names first came.
#[derive(Debug)]
pub struct MergedVariableSet {
    entries: Vec<(String, String)>,
}

impl View for MergedVariableSet {
    type V = Map<Seq<char>, Seq<char>>;

    open spec fn view(&self) -> Map<Seq<char>, Seq<char>> {
        pairs_map(self.entries())
    }
}

proof fn lemma_upsert(s: Seq<(Seq<char>, Seq<char>)>, k: Seq<char>, v: Seq<char>)
    requires
        names_unique(s),
    ensures
        names_unique(upsert(s, k, v)),
        pairs_map(upsert(s, k, v)) =~= pairs_map(s).insert(k, v),
{
    let u = upsert(s, k, v);
    if has_name(s, k) {
        let p = position(s, k);
        assert forall|i: int, j: int|
            0 <= i < u.len() && 0 <= j < u.len() && #[trigger] u[i].0 == #[trigger] u[j].0 implies i
            == j by {
            if i == p {
                assert(s[j].0 == k || j == p);
            } else if j == p {
                assert(s[i].0 == k || i == p);
            } else {
                assert(s[i].0 == s[j].0);
            }
        }
        assert forall|key: Seq<char>| has_name(u, key) <==> has_name(s, key) || key == k by {
            if has_name(s, key) {
                let i = position(s, key);
                if i == p {
                    assert(u[p].0 == k);
                } else {
                    assert(u[i].0 == key);
                }
            }
            if has_name(u, key) {
                let i = position(u, key);
                if i != p {
                    assert(s[i].0 == key);
                }
            }
            if key == k {
                assert(u[p].0 == k);
            }
        }
        assert forall|key: Seq<char>| #[trigger]
            pairs_map(u).contains_key(key) implies pairs_map(u)[key] == pairs_map(s).insert(
            k,
            v,
        )[key] by {
            let i = position(u, key);
            if key == k {
                assert(u[p].0 == k);
            } else {
                let j = position(s, key);
                assert(s[j].0 == key);
                assert(u[j].0 == key);
                assert(i != p);
                assert(s[i].0 == key);
            }
        }
    } else {
        assert forall|i: int, j: int|
            0 <= i < u.len() && 0 <= j < u.len() && #[trigger] u[i].0 == #[trigger] u[j].0 implies i
            == j by {
            if i == s.len() as int && j < s.len() {
                assert(s[j].0 == k);
            } else if j == s.len() as int && i < s.len() {
                assert(s[i].0 == k);
            } else if i < s.len() && j < s.len() {
                assert(s[i].0 == s[j].0);
            }
        }
        assert forall|key: Seq<char>| has_name(u, key) <==> has_name(s, key) || key == k by {
            if has_name(s, key) {
                let i = position(s, key);
                assert(u[i].0 == key);
            }
            if has_name(u, key) {
                let i = position(u, key);
                if i < s.len() {
                    assert(s[i].0 == key);
                }
            }
            if key == k {
                assert(u[s.len() as int].0 == k);
            }
        }
        assert forall|key: Seq<char>| #[trigger]
            pairs_map(u).contains_key(key) implies pairs_map(u)[key] == pairs_map(s).insert(
            k,
            v,
        )[key] by {
            let i = position(u, key);
            if key == k {
                assert(u[s.len() as int].0 == k);
            } else {
                let j = position(s, key);
                assert(s[j].0 == key);
                assert(u[j].0 == key);
                assert(s[i].0 == key);
            }
        }
    }
}

/// The variables that the secrets of one path set on their own.
pub open spec fn path_values(secrets: Seq<(String, JsonValue)>) -> Map<Seq<char>, Seq<char>> {
    pairs_map(apply_secrets(Seq::empty(), secrets))
}

proof fn lemma_apply_prefix(
    s: Seq<(Seq<char>, Seq<char>)>,
    secrets: Seq<(String, JsonValue)>,
    n: int,
)
    requires
        names_unique(s),
        0 <= n <= secrets.len(),
    ensures
        names_unique(apply_prefix(s, secrets, n)),
        names_unique(apply_prefix(Seq::empty(), secrets, n)),
        pairs_map(apply_prefix(s, secrets, n)) =~= pairs_map(s).union_prefer_right(
            pairs_map(apply_prefix(Seq::empty(), secrets, n)),
        ),
    decreases n,
{
    let empty = Seq::<(Seq<char>, Seq<char>)>::empty();
    if n == 0 {
        assert(pairs_map(empty) =~= Map::<Seq<char>, Seq<char>>::empty());
    } else {
        lemma_apply_prefix(s, secrets, n - 1);
        let prev = apply_prefix(s, secrets, n - 1);
        let prev0 = apply_prefix(empty, secrets, n - 1);
        if !shadowed(secrets, n - 1) {
            if let Some(t) = scalar_text(secrets[n - 1].1) {
                lemma_upsert(prev, secrets[n - 1].0@, t);
                lemma_upsert(prev0, secrets[n - 1].0@, t);
            }
        }
    }
}

proof fn lemma_apply_secrets(s: Seq<(Seq<char>, Seq<char>)>, secrets: Seq<(String, JsonValue)>)
    requires
        names_unique(s),
    ensures
        names_unique(apply_secrets(s, secrets)),
        pairs_map(apply_secrets(s, secrets)) =~= pairs_map(s).union_prefer_right(path_values(secrets)),
{
    lemma_apply_prefix(s, secrets, secrets.len() as int);
}

/// Merging never gives a name twice.
pub proof fn lemma_merged_names_unique(all: Seq<Seq<(String, JsonValue)>>)
    ensures
        names_unique(merged_entries(all)),
    decreases all.len(),
{
    if all.len() > 0 {
        lemma_merged_names_unique(all.drop_first());
        lemma_apply_secrets(merged_entries(all.drop_first()), all[0]);
    }
}

/// Precedence: where the `i`-th path sets `name` and no path before it does,
/// the merged value of `name` is the one that the `i`-th path gives, whatever
/// the later paths hold.
pub proof fn lemma_first_listed_path_wins(all: Seq<Seq<(String, JsonValue)>>, i: int, name: Seq<char>)
    requires
        0 <= i < all.len(),
        path_values(all[i]).contains_key(name),
        forall|j: int| 0 <= j < i ==> !#[trigger] path_values(all[j]).contains_key(name),
    ensures
        pairs_map(merged_entries(all)).contains_key(name),
        pairs_map(merged_entries(all))[name] == path_values(all[i])[name],
    decreases i,
{
    let rest = all.drop_first();
    lemma_merged_names_unique(rest);
    lemma_apply_secrets(merged_entries(rest), all[0]);
    if i > 0 {
        assert(!path_values(all[0]).contains_key(name));
        assert forall|j: int| 0 <= j < i - 1 implies !#[trigger] path_values(rest[j]).contains_key(
            name,
        ) by {
            assert(rest[j] == all[j + 1]);
        }
        lemma_first_listed_path_wins(rest, i - 1, name);
    }
}

/// A name that no path sets is not in the merge.
pub proof fn lemma_unset_name_absent(all: Seq<Seq<(String, JsonValue)>>, name: Seq<char>)
    requires
        forall|j: int| 0 <= j < all.len() ==> !#[trigger] path_values(all[j]).contains_key(name),
    ensures
        !pairs_map(merged_entries(all)).contains_key(name),
    decreases all.len(),
{
    if all.len() > 0 {
        let rest = all.drop_first();
        lemma_merged_names_unique(rest);
        lemma_apply_secrets(merged_entries(rest), all[0]);
        assert(!path_values(all[0]).contains_key(name));
        assert forall|j: int| 0 <= j < rest.len() implies !#[trigger] path_values(
            rest[j],
        ).contains_key(name) by {
            assert(rest[j] == all[j + 1]);
        }
        lemma_unset_name_absent(rest, name);
    }
}

impl MergedVariableSet {
    /// The entries, in order, as (name, value) texts.
    pub closed spec fn entries(&self) -> Seq<(Seq<char>, Seq<char>)> {
        self.entries@.map_values(|p: (String, String)| (p.0@, p.1@))
    }

    /// Each name occurs once.
    pub open spec fn wf(&self) -> bool {
        names_unique(self.entries())
    }

    /// An empty set.
    pub fn new() -> (r: MergedVariableSet)
        ensures
            r.wf(),
            r.entries() == Seq::<(Seq<char>, Seq<char>)>::empty(),
            r@ == Map::<Seq<char>, Seq<char>>::empty(),
    {
        let r = MergedVariableSet { entries: Vec::new() };
        assert(r.entries() =~= Seq::<(Seq<char>, Seq<char>)>::empty());
        assert(r@ =~= Map::<Seq<char>, Seq<char>>::empty());
        r
    }

    /// The number of variables.
    pub fn len(&self) -> (r: usize)
        ensures
            r == self.entries().len(),
    {
        self.entries.len()
    }

    /// The name of the `i`-th entry.
    pub fn name_at(&self, i: usize) -> (r: &String)
        requires
            i < self.entries().len(),
        ensures
            r@ == self.entries()[i as int].0,
    {
        &self.entries[i].0
    }

    /// The value of the `i`-th entry.
    pub fn value_at(&self, i: usize) -> (r: &String)
        requires
            i < self.entries().len(),
        ensures
            r@ == self.entries()[i as int].1,
    {
        &self.entries[i].1
    }

    /// The value of the variable `name`, if it is set.
    pub fn get(&self, name: &String) -> (r: Option<String>)
        requires
            self.wf(),
        ensures
            opt_text(r) == (if self@.contains_key(name@) {
                Some(self@[name@])
            } else {
                None
            }),
    {
        let mut i: usize = 0;
        while i < self.entries.len()
            invariant
                i <= self.entries@.len(),
                self.wf(),
                forall|j: int| 0 <= j < i ==> #[trigger] self.entries()[j].0 != name@,
            decreases self.entries@.len() - i,
        {
            if self.entries[i].0 == *name {
                proof {
                    let s = self.entries();
                    assert(s[i as int].0 == name@);
                    assert(has_name(s, name@));
                    let p = position(s, name@);
                    assert(s[p].0 == s[i as int].0);
                }
                return Some(self.entries[i].1.clone());
            }
            i = i + 1;
        }
        None
    }

    /// Sets `name` to `value`, in place where `name` is present, as a new last
    /// entry otherwise.
    pub fn insert(&mut self, name: String, value: String)
        requires
            old(self).wf(),
        ensures
            final(self).wf(),
            final(self).entries() == upsert(old(self).entries(), name@, value@),
            final(self)@ == old(self)@.insert(name@, value@),
    {
        proof {
            lemma_upsert(self.entries(), name@, value@);
        }
        let ghost before = self.entries();
        let mut i: usize = 0;
        while i < self.entries.len()
            invariant
                i <= self.entries@.len(),
                self.entries() == before,
                old(self).entries() == before,
                names_unique(before),
                names_unique(upsert(before, name@, value@)),
                pairs_map(upsert(before, name@, value@)) == pairs_map(before).insert(name@, value@),
                forall|j: int| 0 <= j < i ==> #[trigger] self.entries()[j].0 != name@,
            decreases self.entries@.len() - i,
        {
            if self.entries[i].0 == name {
                proof {
                    assert(before[i as int].0 == name@);
                    assert(has_name(before, name@));
                    let p = position(before, name@);
                    assert(before[p].0 == before[i as int].0);
                }
                self.entries.set(i, (name, value));
                assert(self.entries() =~= upsert(before, name@, value@));
                return;
            }
            i = i + 1;
        }
        self.entries.push((name, value));
        assert(self.entries() =~= upsert(before, name@, value@));
    }
}

/// Whether a later member of `secrets` has the same name as the `i`-th.
pub fn is_shadowed(secrets: &Vec<(String, JsonValue)>, i: usize) -> (r: bool)
    requires
        i < secrets.len(),
    ensures
        r == shadowed(secrets@, i as int),
{
    let mut j: usize = i + 1;
    while j < secrets.len()
        invariant
            i < j <= secrets.len(),
            forall|k: int| i < k < j ==> #[trigger] secrets@[k].0@ != secrets@[i as int].0@,
        decreases secrets.len() - j,
    {
        if secrets[j].0 == secrets[i].0 {
            return true;
        }
        j = j + 1;
    }
    false
}

/// Applies the secrets of one path to `vars`, in order. Of a repeated name
/// only the last occurrence counts; each scalar that counts sets its name,
/// and each array or object that counts is left out and recorded in
/// `warnings`.
pub fn merge_secrets(
    vars: &mut MergedVariableSet,
    warnings: &mut Vec<UnsupportedValue>,
    path: &String,
    secrets: &Vec<(String, JsonValue)>,
)
    requires
        old(vars).wf(),
    ensures
        final(vars).wf(),
        final(vars).entries() == apply_secrets(old(vars).entries(), secrets@),
        warnings_view(final(warnings)@) == warnings_view(old(warnings)@) + skipped(path@, secrets@),
{
    let ghost start = vars.entries();
    let ghost start_warnings = warnings_view(warnings@);
    assert(start_warnings =~= start_warnings + skipped_prefix(path@, secrets@, 0));
    for i in 0..secrets.len()
        invariant
            vars.wf(),
            vars.entries() == apply_prefix(start, secrets@, i as int),
            warnings_view(warnings@) == start_warnings + skipped_prefix(path@, secrets@, i as int),
    {
        if !is_shadowed(secrets, i) {
            let name = &secrets[i].0;
            match stringify_json_value(&secrets[i].1) {
                Some(text) => {
                    vars.insert(name.clone(), text);
                },
                None => {
                    let ghost before = warnings@;
                    warnings.push(UnsupportedValue { name: name.clone(), path: path.clone() });
                    assert(warnings_view(warnings@) =~= warnings_view(before).push((name@, path@)));
                    assert(warnings_view(warnings@) =~= start_warnings + skipped_prefix(
                        path@,
                        secrets@,
                        i + 1,
                    ));
                },
            }
        }
    }
}

/// Merges the secrets of several paths into one set of variables. Where
/// several paths set a name, the first of them decides its value. Returns the
/// variables and the values left out because they are arrays or objects.
pub fn merge_variables(paths: &Vec<PathSecrets>) -> (r: (MergedVariableSet, Vec<UnsupportedValue>))
    ensures
        r.0.wf(),
        r.0.entries() == merged_entries(secrets_of_paths(paths@)),
        warnings_view(r.1@) == merge_warnings(paths@),
{
    let mut vars = MergedVariableSet::new();
    let mut warnings: Vec<UnsupportedValue> = Vec::new();
    let n = paths.len();
    let mut i: usize = n;
    assert(paths@.subrange(n as int, n as int) =~= Seq::<PathSecrets>::empty());
    assert(warnings_view(warnings@) =~= Seq::<(Seq<char>, Seq<char>)>::empty());
    while i > 0
        invariant
            i <= n,
            n == paths@.len(),
            vars.wf(),
            vars.entries() == merged_entries(secrets_of_paths(paths@.subrange(i as int, n as int))),
            warnings_view(warnings@) == merge_warnings(paths@.subrange(i as int, n as int)),
        decreases i,
    {
        let ghost rest = paths@.subrange(i as int, n as int);
        let ghost more = paths@.subrange(i - 1, n as int);
        assert(more.drop_first() =~= rest);
        assert(more[0] == paths@[i - 1]);
        assert(secrets_of_paths(more).drop_first() =~= secrets_of_paths(rest));
        merge_secrets(&mut vars, &mut warnings, &paths[i - 1].path, &paths[i - 1].secrets);
        i = i - 1;
    }
    assert(paths@.subrange(0, n as int) =~= paths@);
    (vars, warnings)
}

} // verus!
