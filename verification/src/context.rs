//! The options of a session that outlive one operation.
//!
//! An option that is set is applied to the engine at once. Unless it is set
//! as temporary it is also kept here, so that it can be applied again before
//! a later operation.

use vstd::prelude::*;

verus! {

/// The options that a list of pairs stands for; of two pairs with one key
/// the later one counts.
pub open spec fn options_of(pairs: Seq<(Seq<char>, Seq<char>)>) -> Map<Seq<char>, Seq<char>>
    decreases pairs.len(),
{
    if pairs.len() == 0 {
        Map::empty()
    } else {
        options_of(pairs.drop_last()).insert(pairs.last().0, pairs.last().1)
    }
}

/// No key occurs twice.
pub open spec fn distinct_keys(pairs: Seq<(Seq<char>, Seq<char>)>) -> bool {
    forall|i: int, j: int|
        0 <= i < j < pairs.len() ==> (#[trigger] pairs[i]).0 != (#[trigger] pairs[j]).0
}

/// The texts of a list of pairs of strings.
pub open spec fn pair_texts(entries: Seq<(String, String)>) -> Seq<(Seq<char>, Seq<char>)> {
    entries.map_values(|entry: (String, String)| (entry.0@, entry.1@))
}

/// A key that no pair has is not among the options.
pub proof fn lemma_absent_key(pairs: Seq<(Seq<char>, Seq<char>)>, key: Seq<char>)
    requires
        forall|i: int| 0 <= i < pairs.len() ==> (#[trigger] pairs[i]).0 != key,
    ensures
        !options_of(pairs).contains_key(key),
    decreases pairs.len(),
{
    if pairs.len() > 0 {
        assert(pairs[pairs.len() - 1].0 != key);
        assert forall|i: int| 0 <= i < pairs.drop_last().len() implies (#[trigger] pairs.drop_last()[i]).0
            != key by {
            assert(pairs[i].0 != key);
        }
        lemma_absent_key(pairs.drop_last(), key);
    }
}

/// Where no key occurs twice, every pair is one of the options.
pub proof fn lemma_present_key(pairs: Seq<(Seq<char>, Seq<char>)>, at: int)
    requires
        distinct_keys(pairs),
        0 <= at < pairs.len(),
    ensures
        options_of(pairs).contains_key(pairs[at].0),
        options_of(pairs)[pairs[at].0] == pairs[at].1,
    decreases pairs.len(),
{
    let head = pairs.drop_last();
    if at < pairs.len() - 1 {
        assert(distinct_keys(head)) by {
            assert forall|i: int, j: int| 0 <= i < j < head.len() implies (#[trigger] head[i]).0 != (
            #[trigger] head[j]).0 by {
                assert(pairs[i].0 != pairs[j].0);
            }
        }
        lemma_present_key(head, at);
        assert(head[at] == pairs[at]);
        assert(pairs[at].0 != pairs[pairs.len() - 1].0);
    }
}

/// Where no key occurs twice, a new value for the key of a pair is that value
/// for that key among the options, and nothing else changes.
pub proof fn lemma_updated_key(pairs: Seq<(Seq<char>, Seq<char>)>, at: int, value: Seq<char>)
    requires
        distinct_keys(pairs),
        0 <= at < pairs.len(),
    ensures
        distinct_keys(pairs.update(at, (pairs[at].0, value))),
        options_of(pairs.update(at, (pairs[at].0, value))) == options_of(pairs).insert(
            pairs[at].0,
            value,
        ),
    decreases pairs.len(),
{
    let key = pairs[at].0;
    let next = pairs.update(at, (key, value));
    let head = pairs.drop_last();
    assert(distinct_keys(next)) by {
        assert forall|i: int, j: int| 0 <= i < j < next.len() implies (#[trigger] next[i]).0 != (
        #[trigger] next[j]).0 by {
            assert(pairs[i].0 != pairs[j].0);
        }
    }
    if at == pairs.len() - 1 {
        assert(next.drop_last() =~= head);
        assert(options_of(next) =~= options_of(pairs).insert(key, value));
    } else {
        assert(distinct_keys(head)) by {
            assert forall|i: int, j: int| 0 <= i < j < head.len() implies (#[trigger] head[i]).0 != (
            #[trigger] head[j]).0 by {
                assert(pairs[i].0 != pairs[j].0);
            }
        }
        lemma_updated_key(head, at, value);
        assert(head[at] == pairs[at]);
        assert(next.drop_last() =~= head.update(at, (key, value)));
        assert(next.last() == pairs.last());
        assert(pairs[at].0 != pairs[pairs.len() - 1].0);
        assert(options_of(next) =~= options_of(pairs).insert(key, value));
    }
}

/// A session: the options that are kept for it, its seed and the directory of
/// its catalog.
#[derive(Debug)]
pub struct PyBioSessionContext {
    session_config: Vec<(String, String)>,
    seed: String,
    catalog_dir: String,
}

impl PyBioSessionContext {
    #[verifier::type_invariant]
    closed spec fn inv(self) -> bool {
        distinct_keys(pair_texts(self.session_config@))
    }

    /// The options that are kept, each once, in the order in which their keys
    /// were first set.
    pub closed spec fn pairs(&self) -> Seq<(Seq<char>, Seq<char>)> {
        pair_texts(self.session_config@)
    }

    /// The options that are kept.
    pub open spec fn options(&self) -> Map<Seq<char>, Seq<char>> {
        options_of(self.pairs())
    }

    /// The seed of the session.
    pub closed spec fn spec_seed(&self) -> Seq<char> {
        self.seed@
    }

    /// The directory of the catalog of the session.
    pub closed spec fn spec_catalog_dir(&self) -> Seq<char> {
        self.catalog_dir@
    }

    /// The seed of the session.
    pub fn seed(&self) -> (seed: &str)
        ensures
            seed@ == self.spec_seed(),
    {
        self.seed.as_str()
    }

    /// The directory of the catalog of the session.
    pub fn catalog_dir(&self) -> (catalog_dir: &str)
        ensures
            catalog_dir@ == self.spec_catalog_dir(),
    {
        self.catalog_dir.as_str()
    }

    /// A session without options.
    pub fn new(seed: String, catalog_dir: String) -> (context: Self)
        ensures
            context.spec_seed() == seed@,
            context.spec_catalog_dir() == catalog_dir@,
            context.pairs().len() == 0,
    {
        let context = PyBioSessionContext { session_config: Vec::new(), seed, catalog_dir };
        context
    }

    fn position(&self, key: &str) -> (found: Option<usize>)
        ensures
            match found {
                Some(at) => at < self.pairs().len() && self.pairs()[at as int].0 == key@,
                None => forall|i: int|
                    0 <= i < self.pairs().len() ==> (#[trigger] self.pairs()[i]).0 != key@,
            },
    {
        let wanted = key.to_string();
        let mut i: usize = 0;
        while i < self.session_config.len()
            invariant
                i <= self.session_config.len(),
                wanted@ == key@,
                forall|k: int| 0 <= k < i ==> (#[trigger] self.pairs()[k]).0 != key@,
            decreases self.session_config.len() - i,
        {
            if self.session_config[i].0 == wanted {
                return Some(i);
            }
            i += 1;
        }
        None
    }

    /// Sets an option. Unless `temporary` is set the option is kept, in place
    /// of what was kept under its key.
    pub fn set_option(&mut self, key: &str, value: &str, temporary: Option<bool>)
        ensures
            final(self).spec_seed() == old(self).spec_seed(),
            final(self).spec_catalog_dir() == old(self).spec_catalog_dir(),
            temporary == Some(true) ==> final(self).pairs() == old(self).pairs(),
            temporary != Some(true) ==> final(self).options() == old(self).options().insert(
                key@,
                value@,
            ),
    {
        proof {
            use_type_invariant(&*self);
        }
        let keep = match temporary {
            Some(true) => false,
            _ => true,
        };
        if keep {
            let ghost before = self.pairs();
            let found = self.position(key);
            let mut config: Vec<(String, String)> = Vec::new();
            core::mem::swap(&mut self.session_config, &mut config);
            match found {
                Some(at) => {
                    let existing = config[at].0.clone();
                    proof {
                        lemma_updated_key(before, at as int, value@);
                    }
                    config.set(at, (existing, value.to_string()));
                    proof {
                        assert(pair_texts(config@) =~= before.update(at as int, (key@, value@)));
                    }
                },
                None => {
                    config.push((key.to_string(), value.to_string()));
                    proof {
                        let after = pair_texts(config@);
                        assert(after =~= before.push((key@, value@)));
                        assert(after.drop_last() =~= before);
                        assert forall|i: int, j: int| 0 <= i < j < after.len() implies (
                        #[trigger] after[i]).0 != (#[trigger] after[j]).0 by {
                            if j < before.len() {
                                assert(before[i].0 != before[j].0);
                            } else {
                                assert(before[i].0 != key@);
                            }
                        }
                    }
                },
            }
            core::mem::swap(&mut self.session_config, &mut config);
        }
    }

    /// The value that is kept under a key.
    pub fn get_option(&self, key: &str) -> (value: Option<&str>)
        ensures
            match value {
                Some(text) => self.options().contains_key(key@) && text@ == self.options()[key@],
                None => !self.options().contains_key(key@),
            },
    {
        proof {
            use_type_invariant(self);
        }
        match self.position(key) {
            Some(at) => {
                proof {
                    lemma_present_key(self.pairs(), at as int);
                }
                Some(self.session_config[at].1.as_str())
            },
            None => {
                proof {
                    lemma_absent_key(self.pairs(), key@);
                }
                None
            },
        }
    }

    /// The options to apply to the engine again: all that are kept, each once.
    pub fn sync_options(&self) -> (options: Vec<(String, String)>)
        ensures
            pair_texts(options@) == self.pairs(),
            distinct_keys(self.pairs()),
    {
        proof {
            use_type_invariant(self);
        }
        let mut options: Vec<(String, String)> = Vec::new();
        let mut i: usize = 0;
        while i < self.session_config.len()
            invariant
                i <= self.session_config.len(),
                options@.len() == i,
                pair_texts(options@) == self.pairs().take(i as int),
            decreases self.session_config.len() - i,
        {
            let ghost so_far = pair_texts(options@);
            let key = self.session_config[i].0.clone();
            let value = self.session_config[i].1.clone();
            options.push((key, value));
            proof {
                let now = pair_texts(options@);
                assert(now.len() == i + 1);
                assert forall|k: int| 0 <= k < now.len() implies now[k] == self.pairs().take(
                    i + 1,
                )[k] by {
                    if k < i {
                        assert(now[k] == so_far[k]);
                    }
                }
                assert(now =~= self.pairs().take(i + 1));
            }
            i += 1;
        }
        proof {
            assert(self.pairs().take(self.session_config.len() as int) =~= self.pairs());
        }
        options
    }
}

/// The options that every new session starts with: joins are not
/// repartitioned and batches are not coalesced.
pub fn tuning_options() -> (options: Vec<(String, String)>)
    ensures
        pair_texts(options@) == seq![
            ("datafusion.optimizer.repartition_joins"@, "false"@),
            ("datafusion.execution.coalesce_batches"@, "false"@),
        ],
{
    let mut options: Vec<(String, String)> = Vec::new();
    options.push(("datafusion.optimizer.repartition_joins".to_string(), "false".to_string()));
    options.push(("datafusion.execution.coalesce_batches".to_string(), "false".to_string()));
    proof {
        assert(pair_texts(options@) =~= seq![
            ("datafusion.optimizer.repartition_joins"@, "false"@),
            ("datafusion.execution.coalesce_batches"@, "false"@),
        ]);
    }
    options
}

} // verus!
