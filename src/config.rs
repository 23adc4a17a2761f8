use vstd::prelude::*;

use crate::pipeline::{initial_state, texts, Run};

verus! {

/// What a run is configured with.
#[derive(Debug)]
pub struct Args {
    /// The secret paths, highest priority first: where paths set the same
    /// name, the value from the first of them is kept.
    pub paths: Vec<String>,
    /// The file to write.
    pub output: String,
    /// The version of the key-value secrets engine named by the user.
    pub vault_kv_version: u8,
    /// The token that authenticates the requests.
    pub vault_token: String,
    /// The server address.
    pub vault_address: String,
    /// Whether to log more.
    pub verbose: bool,
}

/// A copy of a list of strings.
pub fn copy_texts(v: &Vec<String>) -> (r: Vec<String>)
    ensures
        r@ == v@,
{
    let mut r: Vec<String> = Vec::new();
    for i in 0..v.len()
        invariant
            r@ == v@.subrange(0, i as int),
    {
        r.push(v[i].clone());
        assert(r@ =~= v@.subrange(0, i + 1));
    }
    assert(v@.subrange(0, v@.len() as int) =~= v@);
    r
}

impl Args {
    /// A run over the configured paths and server.
    pub fn start_run(&self) -> (r: Run)
        ensures
            r.wf(),
            r@ == initial_state(self.vault_address@, texts(self.paths@)),
    {
        Run::new(self.vault_address.clone(), copy_texts(&self.paths))
    }
}

} // verus!
