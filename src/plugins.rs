use vstd::prelude::*;
use vstd::string::*;
use crate::error::UnifyError;

verus! {

/// The values of the successful outcomes, in order.
pub open spec fn ok_values<V, E>(s: Seq<Result<V, E>>) -> Seq<V>
    decreases s.len(),
{
    if s.len() == 0 {
        Seq::empty()
    } else {
        ok_values(s.drop_last()) + match s.last() {
            Ok(v) => seq![v],
            Err(_) => Seq::empty(),
        }
    }
}

/// Loaded analyzer components, each with the library that backs its code.
/// Components are declared first so they are released before the libraries.
pub struct PluginManager<C, L> {
    plugins: Vec<C>,
    libraries: Vec<L>,
}

impl<C, L> PluginManager<C, L> {
    /// The registered components, in load order.
    pub closed spec fn components(&self) -> Seq<C> {
        self.plugins@
    }

    /// The libraries kept open, in load order.
    pub closed spec fn libraries(&self) -> Seq<L> {
        self.libraries@
    }

    pub fn new() -> (r: Self)
        ensures
            r.components() == Seq::<C>::empty(),
            r.libraries() == Seq::<L>::empty(),
    {
        PluginManager { plugins: Vec::new(), libraries: Vec::new() }
    }

    /// How many components are registered.
    pub fn plugin_count(&self) -> (r: usize)
        ensures
            r == self.components().len(),
    {
        self.plugins.len()
    }

    /// Admits one plugin. `opened` is the outcome of opening its library; `construct`
    /// looks up the entry point in the opened library and builds the component. Either
    /// failure is an internal error and registers nothing; on success the component and
    /// its library are appended together.
    pub fn register<F: FnOnce(&L) -> Result<C, String>>(
        &mut self,
        opened: Result<L, String>,
        construct: F,
    ) -> (r: Result<(), UnifyError>)
        requires
            forall|l: &L| #[trigger] construct.requires((l,)),
        ensures
            opened is Err ==> r is Err,
            r is Err ==> r->Err_0 is Internal && final(self).components() == old(self).components()
                && final(self).libraries() == old(self).libraries(),
            r is Ok ==> opened is Ok && final(self).libraries() == old(self).libraries().push(
                opened->Ok_0,
            ) && exists|c: C|
                construct.ensures((&opened->Ok_0,), Ok::<C, String>(c))
                    && final(self).components() == old(self).components().push(c),
            opened is Ok ==> (r is Ok || exists|m: String|
                construct.ensures((&opened->Ok_0,), Err::<C, String>(m))),
    {
        let lib = match opened {
            Ok(lib) => lib,
            Err(m) => {
                let mut t = String::from_str("Failed to load plugin library: ");
                t.append(m.as_str());
                return Err(UnifyError::Internal(t));
            },
        };
        match construct(&lib) {
            Ok(c) => {
                let ghost gc = c;
                assert(construct.ensures((&lib,), Ok::<C, String>(gc)));
                self.plugins.push(c);
                self.libraries.push(lib);
                assert(self.components() == old(self).components().push(gc));
                Ok(())
            },
            Err(m) => {
                let mut t = String::from_str("Plugin missing constructor: ");
                t.append(m.as_str());
                Err(UnifyError::Internal(t))
            },
        }
    }

    /// Runs every component through `run`, in load order, and keeps the values of those
    /// that succeed; a failing component is skipped.
    pub fn run_all<V, E, F: Fn(&C) -> Result<V, E>>(&self, run: F) -> (r: Vec<V>)
        requires
            forall|c: &C| #[trigger] run.requires((c,)),
        ensures
            exists|outcomes: Seq<Result<V, E>>|
                outcomes.len() == self.components().len() && r@ == ok_values(outcomes) && (forall|
                    i: int,
                | 0 <= i < outcomes.len() ==> run.ensures((&self.components()[i],), #[trigger] outcomes[i])),
    {
        let mut results: Vec<V> = Vec::new();
        let ghost mut outcomes: Seq<Result<V, E>> = Seq::empty();
        let mut i: usize = 0;
        while i < self.plugins.len()
            invariant
                i <= self.plugins@.len(),
                outcomes.len() == i,
                results@ == ok_values(outcomes),
                forall|c: &C| #[trigger] run.requires((c,)),
                forall|k: int|
                    0 <= k < outcomes.len() ==> run.ensures((&self.plugins@[k],), #[trigger] outcomes[k]),
            decreases self.plugins@.len() - i,
        {
            let res = run(&self.plugins[i]);
            let ghost prev = outcomes;
            proof {
                outcomes = outcomes.push(res);
                assert(outcomes.drop_last() =~= prev);
            }
            match res {
                Ok(v) => {
                    results.push(v);
                },
                Err(_) => {
                    assert(results@ =~= ok_values(outcomes));
                },
            }
            assert forall|k: int| 0 <= k < outcomes.len() implies run.ensures(
                (&self.plugins@[k],),
                #[trigger] outcomes[k],
            ) by {
                if k < i {
                    assert(outcomes[k] == prev[k]);
                }
            }
            i = i + 1;
        }
        results
    }
}

} // verus!
