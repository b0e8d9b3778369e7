use vstd::prelude::*;

verus! {

/// The release version used until another is set: `5.4.4`.
pub open spec fn default_release() -> Seq<char> {
    seq!['5', '.', '4', '.', '4']
}

/// The release version string, which save-file restore may replace.
pub struct Release {
    value: String,
}

/// The version a release holder reports: its value, or the default when
/// none is set.
pub open spec fn reported_release(v: Seq<char>) -> Seq<char> {
    if v.len() == 0 { default_release() } else { v }
}

impl Release {
    pub closed spec fn value(&self) -> Seq<char> {
        self.value@
    }

    /// No release set yet.
    pub fn new() -> (r: Release)
        ensures
            r.value().len() == 0,
    {
        Release { value: String::new() }
    }

    fn fill_default(&mut self)
        ensures
            final(self).value() == reported_release(old(self).value()),
    {
        if self.value.as_str().is_empty() {
            let d = "5.4.4";
            proof {
                reveal_strlit("5.4.4");
            }
            self.value = d.to_owned();
            assert(self.value@ =~= default_release());
        }
    }

    fn value_str(&self) -> (s: &str)
        ensures
            s@ == self.value(),
    {
        self.value.as_str()
    }

    fn value_string(&self) -> (s: String)
        ensures
            s@ == self.value(),
    {
        self.value.clone()
    }

    fn replace(&mut self, value: String)
        ensures
            final(self).value() == value@,
    {
        self.value = value;
    }
}

/// The release version string (defaults to `5.4.4` until set).
pub fn release(holder: &mut Release) -> (s: String)
    ensures
        s@ == reported_release(old(holder).value()),
        final(holder).value() == reported_release(old(holder).value()),
{
    holder.fill_default();
    holder.value_string()
}

/// Run `operation` with the release version string borrowed.
pub fn with_release<R, F: FnOnce(&str) -> R>(holder: &mut Release, operation: F) -> (r: R)
    requires
        forall|s: &str| s@ == reported_release(old(holder).value()) ==> call_requires(operation, (s,)),
    ensures
        final(holder).value() == reported_release(old(holder).value()),
        exists|s: &str| s@ == reported_release(old(holder).value()) && call_ensures(operation, (s,), r),
{
    holder.fill_default();
    let s = holder.value_str();
    operation(s)
}

/// Replace the release version string (used by save-file restore).
pub fn set_release(holder: &mut Release, value: String)
    ensures
        final(holder).value() == value@,
{
    holder.replace(value);
}

} // verus!
