//! Configuration resolution: the ordered list of output definitions is
//! validated and indexed by slug, rejecting duplicate slugs.

use vstd::prelude::*;
use vstd::string::StringExecFns;
use crate::text::str_eq;

verus! {

/// One invocable command: a slug naming it, the program to run, and the
/// exact argument list to pass (no shell interpretation, no splitting).
#[derive(Debug)]
pub struct OutputConfig {
    pub slug: String,
    pub cmd: String,
    pub args: Vec<String>,
}

/// The raw configuration as loaded: an ordered list of output definitions,
/// not yet checked for duplicate slugs.
#[derive(Debug)]
pub struct Config {
    pub outputs: Vec<OutputConfig>,
}

/// Failure of configuration resolution.
#[derive(Debug)]
pub enum ResolvedConfigError {
    /// Two definitions share the named slug.
    DuplicatePublicKey(String),
}

/// The resolved configuration: definitions with pairwise distinct slugs,
/// plus the data directory used as working directory for every spawned
/// command. Built once at startup and never mutated afterwards.
#[derive(Debug)]
pub struct ResolvedConfig {
    pub outputs: Vec<OutputConfig>,
    pub data_dir: String,
}

/// Holds when no two definitions in `s` share a slug.
pub open spec fn unique_slugs(s: Seq<OutputConfig>) -> bool {
    forall|i: int, j: int| 0 <= i < j < s.len() ==> s[i].slug@ != s[j].slug@
}

/// Holds when the definition at `j` repeats the slug of an earlier one.
pub open spec fn dup_at(s: Seq<OutputConfig>, j: int) -> bool {
    exists|i: int| 0 <= i < j && s[i].slug@ == s[j].slug@
}

/// The first definition in `s` whose slug is `slug`, if any.
pub open spec fn lookup_seq(s: Seq<OutputConfig>, slug: Seq<char>) -> Option<OutputConfig>
    decreases s.len(),
{
    if s.len() == 0 {
        None
    } else if s[0].slug@ == slug {
        Some(s[0])
    } else {
        lookup_seq(s.drop_first(), slug)
    }
}

impl OutputConfig {
    /// The argv this definition stands for: the program followed by its
    /// configured arguments, copied verbatim.
    pub fn get_command_parts(&self) -> (r: (String, Vec<String>))
        ensures
            r.0@ == self.cmd@,
            r.1@ == self.args@,
    {
        let cmd = self.cmd.clone();
        let args = self.args.clone();
        proof {
            assert(args@ =~= self.args@);
        }
        (cmd, args)
    }
}

impl ResolvedConfigError {
    /// A human-readable description of the error.
    pub fn message(&self) -> (r: String)
        ensures
            match self {
                ResolvedConfigError::DuplicatePublicKey(slug) => r@
                    == "Duplicate public key found: "@ + slug@,
            },
    {
        match self {
            ResolvedConfigError::DuplicatePublicKey(slug) => {
                let mut m = String::from_str("Duplicate public key found: ");
                m.append(slug.as_str());
                m
            },
        }
    }
}

impl ResolvedConfig {
    /// The resolved configuration is well formed when its slugs are
    /// pairwise distinct; `new` establishes this and nothing mutates it.
    pub open spec fn wf(self) -> bool {
        unique_slugs(self.outputs@)
    }

    /// Validates and indexes the raw configuration. Succeeds exactly when
    /// the slugs are pairwise distinct, keeping the definitions in input
    /// order; otherwise fails naming the slug of the first definition that
    /// repeats an earlier one, and no registry is produced.
    pub fn new(config: Config, data_dir: String) -> (r: Result<ResolvedConfig, ResolvedConfigError>)
        ensures
            match r {
                Ok(rc) => unique_slugs(config.outputs@) && rc.wf() && rc.outputs@
                    == config.outputs@ && rc.data_dir@ == data_dir@,
                Err(e) => match e {
                    ResolvedConfigError::DuplicatePublicKey(slug) => exists|j: int|
                        0 <= j < config.outputs@.len() && #[trigger] dup_at(config.outputs@, j)
                            && slug@ == config.outputs@[j].slug@ && (forall|k: int|
                            0 <= k < j ==> !dup_at(config.outputs@, k)),
                },
            },
    {
        let n = config.outputs.len();
        let mut j: usize = 0;
        while j < n
            invariant
                n == config.outputs@.len(),
                j <= n,
                forall|k: int| 0 <= k < j ==> !dup_at(config.outputs@, k),
            decreases n - j,
        {
            let mut i: usize = 0;
            while i < j
                invariant
                    n == config.outputs@.len(),
                    i <= j < n,
                    forall|k: int| 0 <= k < j ==> !dup_at(config.outputs@, k),
                    forall|k: int| 0 <= k < i ==> config.outputs@[k].slug@
                        != config.outputs@[j as int].slug@,
                decreases j - i,
            {
                if config.outputs[i].slug == config.outputs[j].slug {
                    proof {
                        assert(dup_at(config.outputs@, j as int));
                    }
                    return Err(ResolvedConfigError::DuplicatePublicKey(
                        config.outputs[j].slug.clone(),
                    ));
                }
                i = i + 1;
            }
            j = j + 1;
        }
        proof {
            assert forall|a: int, b: int| 0 <= a < b < config.outputs@.len() implies config
                .outputs@[a].slug@ != config.outputs@[b].slug@ by {
                assert(!dup_at(config.outputs@, b));
            }
        }
        Ok(ResolvedConfig { outputs: config.outputs, data_dir })
    }

    /// Resolves a slug to its definition: the unique definition carrying
    /// that slug, or `None` when no definition does.
    pub fn get_output_by_slug<'a>(&'a self, slug: &str) -> (r: Option<&'a OutputConfig>)
        ensures
            match r {
                Some(oc) => lookup_seq(self.outputs@, slug@) == Some(*oc),
                None => lookup_seq(self.outputs@, slug@) is None,
            },
    {
        let n = self.outputs.len();
        let mut i: usize = 0;
        proof {
            assert(self.outputs@.skip(0) =~= self.outputs@);
        }
        while i < n
            invariant
                n == self.outputs@.len(),
                i <= n,
                lookup_seq(self.outputs@, slug@) == lookup_seq(
                    self.outputs@.skip(i as int),
                    slug@,
                ),
            decreases n - i,
        {
            proof {
                assert(self.outputs@.skip(i as int)[0] == self.outputs@[i as int]);
            }
            if str_eq(self.outputs[i].slug.as_str(), slug) {
                return Some(&self.outputs[i]);
            }
            proof {
                assert(self.outputs@.skip(i as int).drop_first() =~= self.outputs@.skip(
                    i as int + 1,
                ));
            }
            i = i + 1;
        }
        None
    }
}

/// Law: in a well-formed registry, looking up the slug of any definition
/// returns exactly that definition.
pub proof fn lemma_lookup_present(s: Seq<OutputConfig>, i: int)
    requires
        unique_slugs(s),
        0 <= i < s.len(),
    ensures
        lookup_seq(s, s[i].slug@) == Some(s[i]),
    decreases s.len(),
{
    if i == 0 {
    } else {
        assert(s[0].slug@ != s[i].slug@);
        assert(s.drop_first()[i - 1] == s[i]);
        lemma_lookup_present(s.drop_first(), i - 1);
    }
}

/// Law: looking up a slug that no definition carries returns `None`.
pub proof fn lemma_lookup_absent(s: Seq<OutputConfig>, slug: Seq<char>)
    requires
        forall|i: int| 0 <= i < s.len() ==> s[i].slug@ != slug,
    ensures
        lookup_seq(s, slug) is None,
    decreases s.len(),
{
    if s.len() > 0 {
        lemma_lookup_absent(s.drop_first(), slug);
    }
}

} // verus!
