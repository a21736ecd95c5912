use vstd::prelude::*;
use crate::adapters::imported;
use crate::driver::Driver;
use crate::error::{resolution_error, Error, Phase};
use crate::methods::{has_entry, BundledScripts, MethodScript, RawMethod, ScriptHost};
use crate::set::{same_but_data, with_seen, CardSet};

verus! {

/// An engine over one set: creates sets by import, starts learn sessions and
/// tests on it, and resets its progress.
pub struct Forne<H> {
    /// The set being operated on.
    pub set: CardSet,
    /// The scripting engine behind methods and adapters.
    pub host: H,
    /// The bundled method scripts.
    pub bundled: BundledScripts,
}

impl<H: ScriptHost> Forne<H> {
    /// An engine over an existing set.
    pub fn from_set(set: CardSet, host: H, bundled: BundledScripts) -> (r: Self)
        requires
            set.wf(),
        ensures
            r.set == set,
            r.host == host,
            r.bundled == bundled,
    {
        Forne { set, host, bundled }
    }

    /// Creates a set from the source text, through the adapter script, for the
    /// given method: every pair becomes an unflagged card holding the method's
    /// default metadata.
    pub fn new_set(
        src: String,
        adapter_script: &String,
        raw_method: RawMethod,
        host: H,
        bundled: BundledScripts,
    ) -> (r: Result<Self, Error>)
        ensures
            r matches Ok(f) ==> f.set.wf() && f.set.method@ == raw_method.name_spec()
                && f.set.run_state is None && !f.set.test_in_progress,
            r matches Ok(f) ==> exists|pairs: Seq<(Seq<char>, Seq<char>)>, d: Seq<char>|
                imported(Seq::empty(), f.set.cards@, pairs, d),
            raw_method is Inbuilt && !has_entry(bundled.entries@, raw_method.name_spec()) ==> r matches Err(
                Error::UnknownBundledMethod(_),
            ),
    {
        let name = raw_method.name().clone();
        let mut set = CardSet::new_empty(name);
        assert(set.cards@ =~= Seq::<crate::set::Card>::empty());
        match import(&mut set, src, adapter_script, raw_method, &host, &bundled) {
            Ok(()) => Ok(Forne { set, host, bundled }),
            Err(e) => Err(e),
        }
    }

    /// Imports the source text again through the adapter script: a pair whose
    /// question matches a card replaces it wholesale, others become new cards.
    /// Where anything fails the set is left as it was.
    pub fn update_set(&mut self, src: String, adapter_script: &String, raw_method: RawMethod) -> (r:
        Result<(), Error>)
        requires
            old(self).set.wf(),
        ensures
            final(self).set.wf(),
            final(self).set.same_header(&old(self).set),
            r is Err ==> final(self).set == old(self).set,
            r is Ok ==> exists|pairs: Seq<(Seq<char>, Seq<char>)>, d: Seq<char>|
                imported(old(self).set.cards@, final(self).set.cards@, pairs, d),
            final(self).host == old(self).host,
            final(self).bundled == old(self).bundled,
    {
        import(&mut self.set, src, adapter_script, raw_method, &self.host, &self.bundled)
    }

    /// Starts a learn session with the given method. Fails where the method
    /// does not resolve, or where the set has an unfinished pass under another
    /// method (`MethodMismatch`); the engine is then handed back.
    pub fn learn(self, raw_method: RawMethod) -> (r: Result<Driver<H::Script>, (Error, Self)>)
        requires
            self.set.wf(),
        ensures
            r matches Err((_, f)) ==> f == self,
            r matches Ok(d) ==> Driver::fresh(d, self.set) && !d.is_test() && d.method_name()
                == raw_method.name_spec(),
            (self.set.run_state matches Some(n) && n@ != raw_method.name_spec()) ==> r is Err,
            r matches Err((e, _)) ==> resolution_error(e) || (e is MethodMismatch && (
            self.set.run_state matches Some(n) && n@ != raw_method.name_spec())),
            raw_method is Inbuilt && !has_entry(self.bundled.entries@, raw_method.name_spec())
                ==> r matches Err((Error::UnknownBundledMethod(_), _)),
    {
        let method = match raw_method.into_method(&self.bundled, &self.host) {
            Ok(m) => m,
            Err(e) => return Err((e, self)),
        };
        let Forne { set, host, bundled } = self;
        match Driver::new_learn(set, method) {
            Ok(d) => Ok(d),
            Err((e, set)) => Err((e, Forne { set, host, bundled })),
        }
    }

    /// Starts a test.
    pub fn test(self) -> (r: Driver<H::Script>)
        requires
            self.set.wf(),
        ensures
            Driver::fresh(r, self.set),
            r.is_test(),
    {
        Driver::new_test(self.set)
    }

    /// Discards all learn progress: every card gets the method's default
    /// metadata and the unfinished pass is forgotten. Where the method does not
    /// resolve or its default fails, nothing changes.
    pub fn reset_learn(&mut self, method: RawMethod) -> (r: Result<(), Error>)
        requires
            old(self).set.wf(),
        ensures
            final(self).set.wf(),
            final(self).host == old(self).host,
            final(self).bundled == old(self).bundled,
            r is Err ==> final(self).set == old(self).set,
            r matches Err(e) ==> resolution_error(e) || e matches Error::ScriptRuntime {
                phase: Phase::DefaultMetadata,
                ..
            },
            method is Inbuilt && !has_entry(old(self).bundled.entries@, method.name_spec()) ==> r matches Err(
                Error::UnknownBundledMethod(_),
            ),
            r is Ok ==> {
                &&& final(self).set.run_state is None
                &&& final(self).set.method@ == old(self).set.method@
                &&& final(self).set.test_in_progress == old(self).set.test_in_progress
                &&& final(self).set.cards@.len() == old(self).set.cards@.len()
                &&& forall|i: int|
                    0 <= i < old(self).set.cards@.len() ==> same_but_data(
                        final(self).set.cards@[i],
                        old(self).set.cards@[i],
                    )
                &&& forall|i: int, j: int|
                    0 <= i < old(self).set.cards@.len() && 0 <= j < old(self).set.cards@.len()
                        ==> (#[trigger] final(self).set.cards@[i]).method_data@
                        == (#[trigger] final(self).set.cards@[j]).method_data@
            },
    {
        let method = match method.into_method(&self.bundled, &self.host) {
            Ok(m) => m,
            Err(e) => return Err(e),
        };
        let default = match method.script.default_metadata() {
            Ok(d) => d,
            Err(message) => return Err(Error::ScriptRuntime { phase: Phase::DefaultMetadata, message }),
        };
        self.set.reset_learn(default);
        Ok(())
    }

    /// Resets all test progress; stars stay.
    pub fn reset_test(&mut self)
        requires
            old(self).set.wf(),
        ensures
            final(self).set.wf(),
            final(self).set.same_header(&old(self).set),
            final(self).set.cards@.len() == old(self).set.cards@.len(),
            forall|i: int|
                0 <= i < old(self).set.cards@.len() ==> final(self).set.cards@[i] == with_seen(
                    old(self).set.cards@[i],
                    false,
                ),
            final(self).host == old(self).host,
            final(self).bundled == old(self).bundled,
    {
        self.set.reset_test();
    }
}

/// Imports the source text into `set` through the adapter script, for the given
/// method; leaves the set as it was where anything fails.
fn import<H: ScriptHost>(
    set: &mut CardSet,
    src: String,
    adapter_script: &String,
    raw_method: RawMethod,
    host: &H,
    bundled: &BundledScripts,
) -> (r: Result<(), Error>)
    requires
        old(set).wf(),
    ensures
        final(set).wf(),
        final(set).same_header(old(set)),
        r is Err ==> *final(set) == *old(set),
        r is Ok ==> exists|pairs: Seq<(Seq<char>, Seq<char>)>, d: Seq<char>|
            imported(old(set).cards@, final(set).cards@, pairs, d),
        raw_method is Inbuilt && !has_entry(bundled.entries@, raw_method.name_spec()) ==> r matches Err(
            Error::UnknownBundledMethod(_),
        ),
{
    let method = match raw_method.into_method(bundled, host) {
        Ok(m) => m,
        Err(e) => return Err(e),
    };
    let default = match method.script.default_metadata() {
        Ok(d) => d,
        Err(message) => return Err(Error::ScriptRuntime { phase: Phase::DefaultMetadata, message }),
    };
    let raw = match host.run_adapter(adapter_script, src) {
        Ok(raw) => raw,
        Err(report) => return Err(Error::AdapterFailed(report)),
    };
    set.import_output(raw, &default)
}

} // verus!
