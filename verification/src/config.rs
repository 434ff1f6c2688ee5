use vstd::prelude::*;

verus! {

/// The settings an environment is created with: pairs of a parameter's name
/// and its value, in the order they were set. The binding reads none of
/// them; the engine gets them as they are and accepts or rejects them itself.
pub struct Config {
    kvs: Vec<(String, String)>,
}

/// The settings as text.
pub open spec fn settings(kvs: Seq<(String, String)>) -> Seq<(Seq<char>, Seq<char>)> {
    Seq::new(kvs.len(), |k: int| (kvs[k].0@, kvs[k].1@))
}

impl View for Config {
    type V = Seq<(Seq<char>, Seq<char>)>;

    closed spec fn view(&self) -> Seq<(Seq<char>, Seq<char>)> {
        settings(self.kvs@)
    }
}

impl Config {
    /// No setting at all.
    pub fn new() -> (r: Config)
        ensures
            r@ == Seq::<(Seq<char>, Seq<char>)>::empty(),
    {
        Config { kvs: Vec::new() }
    }

    /// Sets the parameter `k` to `v`, after all that was set before.
    pub fn set_param_value(&mut self, k: &str, v: &str)
        ensures
            final(self)@ == old(self)@.push((k@, v@)),
    {
        self.kvs.push((k.to_string(), v.to_string()));
    }

    /// Every setting, in the order set.
    pub fn params(&self) -> (r: &Vec<(String, String)>)
        ensures
            settings(r@) == self@,
    {
        &self.kvs
    }
}

} // verus!
