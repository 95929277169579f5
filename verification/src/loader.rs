//! Plugin-loader decisions: the directory search for a shared object, the
//! plugin and factory caches keyed by resolved names, and the error chosen
//! at each dead end. Opening a library, probing a factory and running its
//! constructor are the surrounding program's outside work; it asks this
//! state machine what to do next, performs the step, and records the
//! outcome behind a plain token.

use vstd::prelude::*;
use vstd::string::StringExecFns;

use crate::error::Error;
use crate::str_eq;

verus! {

/// First-match lookup of a token cache.
pub open spec fn spec_token_lookup(entries: Seq<(String, u64)>, key: Seq<char>) -> Option<u64>
    decreases entries.len(),
{
    if entries.len() == 0 {
        Option::None
    } else if entries.first().0@ == key {
        Option::Some(entries.first().1)
    } else {
        spec_token_lookup(entries.drop_first(), key)
    }
}

/// The loader's state: the search directories, the default support
/// library, and the two caches — opened plugins keyed by their resolved
/// path, probed factories keyed by path and factory name.
pub struct Loader {
    pub dirs: Vec<String>,
    pub support_lib: String,
    pub plugins: Vec<(String, u64)>,
    pub factories: Vec<(String, u64)>,
}

/// The next move of the directory walk for a library: a cache hit ends
/// it, a fresh candidate path is to be opened outside, and an exhausted
/// walk gives up. Both outcomes carry the resolved path, which later
/// names the plugin's factories.
pub enum PluginStep {
    UseCached { plugin: u64, path: String },
    TryOpen { path: String },
    GiveUp,
}

/// The next move for a factory of an opened plugin: a cache hit, or a
/// probe of the plugin outside, to be recorded under the given key.
pub enum FactoryStep {
    UseCached { factory: u64 },
    Probe { key: String },
}

impl Loader {
    /// Unique keys in both caches.
    pub open spec fn wf(self) -> bool {
        &&& forall|i: int, j: int|
            #![trigger self.plugins@[i].0@, self.plugins@[j].0@]
            0 <= i < j < self.plugins@.len() ==> self.plugins@[i].0@ != self.plugins@[j].0@
        &&& forall|i: int, j: int|
            #![trigger self.factories@[i].0@, self.factories@[j].0@]
            0 <= i < j < self.factories@.len() ==> self.factories@[i].0@ != self.factories@[j].0@
    }

    /// A loader over the given search directories, with empty caches.
    pub fn new(dirs: Vec<String>, support_lib: String) -> (r: Loader)
        ensures
            r.dirs@ == dirs@,
            r.support_lib@ == support_lib@,
            r.plugins@.len() == 0,
            r.factories@.len() == 0,
            r.wf(),
    {
        Loader { dirs, support_lib, plugins: Vec::new(), factories: Vec::new() }
    }

    /// The library a request names: the given one, or the default support
    /// library.
    pub fn effective_lib<'a>(&'a self, lib: Option<&'a str>) -> (r: &'a str)
        ensures
            r@ == match lib {
                Option::Some(l) => l@,
                Option::None => self.support_lib@,
            },
    {
        match lib {
            Option::Some(l) => l,
            Option::None => self.support_lib.as_str(),
        }
    }

    /// The candidate path of `lib` in the i-th search directory.
    pub fn candidate(&self, i: usize, lib: &str) -> (r: String)
        requires
            i < self.dirs@.len(),
        ensures
            r@ == self.dirs@[i as int]@ + "/"@ + lib@ + ".so"@,
    {
        let mut out = self.dirs[i].clone();
        out.append("/");
        out.append(lib);
        out.append(".so");
        out
    }

    /// The cache key of a factory: the resolved library path, a slash,
    /// and the factory name.
    pub fn factory_key(&self, path: &str, factory_name: &str) -> (r: String)
        ensures
            r@ == path@ + "/"@ + factory_name@,
    {
        let mut out = path.to_owned();
        out.append("/");
        out.append(factory_name);
        out
    }

    /// First cached token under a key, if any.
    fn token_lookup(entries: &Vec<(String, u64)>, key: &str) -> (r: Option<u64>)
        ensures
            r == spec_token_lookup(entries@, key@),
    {
        let n = entries.len();
        proof {
            assert(entries@.skip(0) =~= entries@);
        }
        let mut i: usize = 0;
        while i < n
            invariant
                i <= n,
                n == entries@.len(),
                spec_token_lookup(entries@.skip(i as int), key@) == spec_token_lookup(
                    entries@,
                    key@,
                ),
            decreases n - i,
        {
            if str_eq(entries[i].0.as_str(), key) {
                proof {
                    assert(entries@.skip(i as int).first() == entries@[i as int]);
                }
                return Option::Some(entries[i].1);
            }
            proof {
                assert(entries@.skip(i as int).first() == entries@[i as int]);
                assert(entries@.skip(i as int).drop_first() =~= entries@.skip(i + 1));
            }
            i += 1;
        }
        proof {
            assert(entries@.skip(n as int).len() == 0);
        }
        Option::None
    }

    /// First cached plugin under the resolved library path, if any.
    pub fn cached_plugin(&self, path: &str) -> (r: Option<u64>)
        ensures
            r == spec_token_lookup(self.plugins@, path@),
    {
        Self::token_lookup(&self.plugins, path)
    }

    /// First cached factory under the factory key, if any.
    pub fn cached_factory(&self, key: &str) -> (r: Option<u64>)
        ensures
            r == spec_token_lookup(self.factories@, key@),
    {
        Self::token_lookup(&self.factories, key)
    }

    /// Record a plugin the surroundings opened; a path already cached is
    /// refused, so keys stay unique.
    pub fn record_plugin(&mut self, path: String, handle: u64) -> (r: Result<(), Error>)
        requires
            old(self).wf(),
        ensures
            final(self).wf(),
            final(self).dirs@ == old(self).dirs@,
            final(self).support_lib@ == old(self).support_lib@,
            final(self).factories@ == old(self).factories@,
            spec_token_lookup(old(self).plugins@, path@) is Some ==> (r matches Err(e) && e
                == Error::Invalid && final(self).plugins@ == old(self).plugins@),
            spec_token_lookup(old(self).plugins@, path@) is None ==> (r matches Ok(u) && final(self).plugins@ == old(self).plugins@.push((path, handle))),
    {
        proof {
            lemma_token_lookup_found(self.plugins@, path@);
        }
        if Self::token_lookup(&self.plugins, path.as_str()).is_some() {
            return Err(Error::Invalid);
        }
        self.plugins.push((path, handle));
        Ok(())
    }

    /// Record a factory the surroundings probed; a key already cached is
    /// refused, so keys stay unique.
    pub fn record_factory(&mut self, key: String, token: u64) -> (r: Result<(), Error>)
        requires
            old(self).wf(),
        ensures
            final(self).wf(),
            final(self).dirs@ == old(self).dirs@,
            final(self).support_lib@ == old(self).support_lib@,
            final(self).plugins@ == old(self).plugins@,
            spec_token_lookup(old(self).factories@, key@) is Some ==> (r matches Err(e) && e
                == Error::Invalid && final(self).factories@ == old(self).factories@),
            spec_token_lookup(old(self).factories@, key@) is None ==> (r matches Ok(u) && final(self).factories@ == old(self).factories@.push((key, token))),
    {
        proof {
            lemma_token_lookup_found(self.factories@, key@);
        }
        if Self::token_lookup(&self.factories, key.as_str()).is_some() {
            return Err(Error::Invalid);
        }
        self.factories.push((key, token));
        Ok(())
    }

    /// The next move of the directory walk: past the last directory the
    /// walk gives up; a candidate path already cached is used; otherwise
    /// the candidate is to be opened outside. A failed open advances the
    /// walk to the next directory.
    pub fn plugin_step(&self, lib: &str, index: usize) -> (r: PluginStep)
        ensures
            index >= self.dirs@.len() ==> r matches PluginStep::GiveUp,
            index < self.dirs@.len() ==> ({
                let path = self.dirs@[index as int]@ + "/"@ + lib@ + ".so"@;
                match spec_token_lookup(self.plugins@, path) {
                    Option::Some(h) => r matches PluginStep::UseCached { plugin, path: p }
                        && plugin == h && p@ == path,
                    Option::None => r matches PluginStep::TryOpen { path: p } && p@ == path,
                }
            }),
    {
        if index >= self.dirs.len() {
            return PluginStep::GiveUp;
        }
        let path = self.candidate(index, lib);
        match self.cached_plugin(path.as_str()) {
            Option::Some(plugin) => PluginStep::UseCached { plugin, path },
            Option::None => PluginStep::TryOpen { path },
        }
    }

    /// The next move for a factory of the plugin at `path`: a cache hit
    /// under the factory key, or a probe to be recorded under that key.
    pub fn factory_step(&self, path: &str, factory_name: &str) -> (r: FactoryStep)
        ensures
            ({
                let key = path@ + "/"@ + factory_name@;
                match spec_token_lookup(self.factories@, key) {
                    Option::Some(t) => r matches FactoryStep::UseCached { factory } && factory == t,
                    Option::None => r matches FactoryStep::Probe { key: k } && k@ == key,
                }
            }),
    {
        let key = self.factory_key(path, factory_name);
        match self.cached_factory(key.as_str()) {
            Option::Some(factory) => FactoryStep::UseCached { factory },
            Option::None => FactoryStep::Probe { key },
        }
    }

    /// The error each dead end reports: a library found in no directory
    /// and a factory the plugin does not expose are not found; a factory
    /// whose constructor failed is an opaque initialization failure.
    pub fn plugin_missing_error(&self) -> (r: Error)
        ensures
            r == Error::NotFound,
    {
        Error::NotFound
    }

    /// See `plugin_missing_error`.
    pub fn factory_missing_error(&self) -> (r: Error)
        ensures
            r == Error::NotFound,
    {
        Error::NotFound
    }

    /// See `plugin_missing_error`.
    pub fn init_failed_error(&self) -> (r: Error)
        ensures
            r == Error::Other,
    {
        Error::Other
    }
}

/// A cache lookup succeeds exactly when some entry carries the key.
pub proof fn lemma_token_lookup_found(entries: Seq<(String, u64)>, key: Seq<char>)
    ensures
        spec_token_lookup(entries, key) is Some <==> exists|i: int|
            0 <= i < entries.len() && #[trigger] entries[i].0@ == key,
    decreases entries.len(),
{
    if entries.len() > 0 {
        lemma_token_lookup_found(entries.drop_first(), key);
        assert(forall|i: int|
            0 <= i < entries.drop_first().len() ==> #[trigger] entries.drop_first()[i] == entries[i
                + 1]);
        if entries.first().0@ == key {
            assert(entries[0].0@ == key);
        } else if exists|i: int| 0 <= i < entries.len() && #[trigger] entries[i].0@ == key {
            let i = choose|i: int| 0 <= i < entries.len() && #[trigger] entries[i].0@ == key;
            assert(entries.drop_first()[i - 1].0@ == key);
        }
    }
}

} // verus!
