use vstd::prelude::*;

verus! {

/// Settings of the picker, read by the host from its configuration file.
pub struct Config {
    /// Largest number of items that a search offers.
    pub max_entries: usize,
    /// Program that answers for the credential store.
    pub op_path: String,
    /// Text that a query must start with to reach this picker; empty for none.
    pub prefix: String,
}

/// The default largest number of items offered by a search.
pub fn max_entries() -> (r: usize)
    ensures
        r == 10,
{
    10
}

/// The default program name of the credential store's command line.
pub fn op_path() -> (r: String)
    ensures
        r@ == "op"@,
{
    String::from_str("op")
}

/// The default query prefix: none.
pub fn prefix() -> (r: String)
    ensures
        r@ == Seq::<char>::empty(),
{
    String::new()
}

impl Default for Config {
    fn default() -> (r: Self)
        ensures
            r.max_entries == 10,
            r.op_path@ == "op"@,
            r.prefix@ == Seq::<char>::empty(),
    {
        Config { max_entries: max_entries(), op_path: op_path(), prefix: prefix() }
    }
}

} // verus!
