//! Bookkeeping for binding arguments to a compute kernel.
//!
//! A [`Kernel`] records, in order, every argument bound so far, assigns
//! each one its index, and keeps a name-to-index table for the arguments
//! that may be re-set later by name.  Work sizes are dimension-checked
//! against the kernel's global work size.  The native call that ships an
//! argument to the device is glue around this bookkeeping and is not part
//! of it; what is recorded here is exactly what such a call would be given.

use vstd::prelude::*;

verus! {

/// An n-dimensional work size, or none at all.
#[derive(Clone, Copy, PartialEq, Eq, Structural, Debug)]
pub enum WorkSize {
    Unspecified,
    OneDim(usize),
    TwoDims(usize, usize),
    ThreeDims(usize, usize, usize),
}

impl WorkSize {
    /// How many dimensions this work size spans; an unspecified size
    /// spans none.
    pub open spec fn spec_dim_count(self) -> u32 {
        match self {
            WorkSize::Unspecified => 0,
            WorkSize::OneDim(..) => 1,
            WorkSize::TwoDims(..) => 2,
            WorkSize::ThreeDims(..) => 3,
        }
    }

    /// Counts the dimensions of this work size.
    pub fn dim_count(&self) -> (n: u32)
        ensures
            n == self.spec_dim_count(),
    {
        match self {
            WorkSize::Unspecified => 0,
            WorkSize::OneDim(..) => 1,
            WorkSize::TwoDims(..) => 2,
            WorkSize::ThreeDims(..) => 3,
        }
    }

    /// The full three-dimensional geometry a dispatch call is given:
    /// the sizes that are set, with every unused dimension as 1.
    pub open spec fn spec_complete_worksize(self) -> (usize, usize, usize) {
        match self {
            WorkSize::Unspecified => (1, 1, 1),
            WorkSize::OneDim(x) => (x, 1, 1),
            WorkSize::TwoDims(x, y) => (x, y, 1),
            WorkSize::ThreeDims(x, y, z) => (x, y, z),
        }
    }

    /// Pads this work size out to the three dimensions a dispatch call
    /// expects, filling unused dimensions with 1.
    pub fn complete_worksize(&self) -> (w: (usize, usize, usize))
        ensures
            w == self.spec_complete_worksize(),
    {
        match self {
            WorkSize::Unspecified => (1, 1, 1),
            WorkSize::OneDim(x) => (*x, 1, 1),
            WorkSize::TwoDims(x, y) => (*x, *y, 1),
            WorkSize::ThreeDims(x, y, z) => (*x, *y, *z),
        }
    }
}

/// The scalar element types a device buffer or kernel argument can carry.
pub trait OclNum: Copy {

}

impl OclNum for u8 {

}

impl OclNum for i8 {

}

impl OclNum for u16 {

}

impl OclNum for i16 {

}

impl OclNum for u32 {

}

impl OclNum for i32 {

}

impl OclNum for u64 {

}

impl OclNum for i64 {

}

impl OclNum for usize {

}

impl OclNum for isize {

}

/// A host-side handle to a device buffer's contents.
pub struct Envoy<T> {
    pub data: Vec<T>,
}

impl<T> Envoy<T> {
    /// Wraps the given host data.
    pub fn new(data: Vec<T>) -> (e: Envoy<T>)
        ensures
            e.data@ == data@,
    {
        Envoy { data }
    }

    /// Number of elements held.
    pub fn len(&self) -> (n: usize)
        ensures
            n == self.data@.len(),
    {
        self.data.len()
    }
}

/// What one bound argument is: a device buffer (possibly deferred, bound
/// as null for now), an immediate scalar (possibly deferred, bound as the
/// default value), or a device-local scratch allocation of `len` elements.
#[derive(Clone, Copy, PartialEq, Eq, Structural, Debug)]
pub enum KernelArg {
    Buffer { present: bool },
    Scalar { present: bool },
    Local { len: usize },
}

/// The value recorded for `name` in the name-to-index table: the value of
/// the first pair whose key matches.
pub open spec fn find_named(pairs: Seq<(String, u32)>, name: Seq<char>) -> Option<u32>
    decreases pairs.len(),
{
    if pairs.len() == 0 {
        None
    } else if pairs[0].0@ == name {
        Some(pairs[0].1)
    } else {
        find_named(pairs.skip(1), name)
    }
}

/// Whatever `find_named` returns was stored in some pair, so it respects
/// any bound that all stored values respect.
proof fn lemma_find_named_in_range(pairs: Seq<(String, u32)>, name: Seq<char>, bound: u32)
    requires
        forall|i: int| 0 <= i < pairs.len() ==> (#[trigger] pairs[i]).1 < bound,
    ensures
        find_named(pairs, name) matches Some(v) ==> v < bound,
    decreases pairs.len(),
{
    if pairs.len() > 0 && pairs[0].0@ != name {
        assert(forall|i: int| 0 <= i < pairs.skip(1).len() ==> pairs.skip(1)[i] == pairs[i + 1]);
        lemma_find_named_in_range(pairs.skip(1), name, bound);
    }
}

/// A first key match at position `i` settles the lookup.
proof fn lemma_find_named_at(pairs: Seq<(String, u32)>, name: Seq<char>, i: int)
    requires
        0 <= i < pairs.len(),
        pairs[i].0@ == name,
        forall|j: int| 0 <= j < i ==> pairs[j].0@ != name,
    ensures
        find_named(pairs, name) == Some(pairs[i].1),
    decreases i,
{
    if i > 0 {
        assert(forall|j: int| 0 <= j < pairs.skip(1).len() ==> pairs.skip(1)[j] == pairs[j + 1]);
        lemma_find_named_at(pairs.skip(1), name, i - 1);
    }
}

/// No key matches: the lookup comes back empty.
proof fn lemma_find_named_absent(pairs: Seq<(String, u32)>, name: Seq<char>)
    requires
        forall|j: int| 0 <= j < pairs.len() ==> (#[trigger] pairs[j]).0@ != name,
    ensures
        find_named(pairs, name) is None,
    decreases pairs.len(),
{
    if pairs.len() > 0 {
        assert(forall|j: int| 0 <= j < pairs.skip(1).len() ==> pairs.skip(1)[j] == pairs[j + 1]);
        lemma_find_named_absent(pairs.skip(1), name);
    }
}

/// Overwriting the pair that holds a key rebinds that key and leaves
/// every other lookup unchanged.
proof fn lemma_find_named_update(pairs: Seq<(String, u32)>, i: int, name: String, idx: u32)
    requires
        0 <= i < pairs.len(),
        pairs[i].0@ == name@,
        forall|a: int, b: int| 0 <= a < b < pairs.len() ==> pairs[a].0@ != pairs[b].0@,
    ensures
        forall|n: Seq<char>| #[trigger] find_named(pairs.update(i, (name, idx)), n) == (if n
            == name@ {
            Some(idx)
        } else {
            find_named(pairs, n)
        }),
    decreases i,
{
    let upd = pairs.update(i, (name, idx));
    if i == 0 {
        assert forall|n: Seq<char>| #[trigger] find_named(upd, n) == (if n == name@ {
            Some(idx)
        } else {
            find_named(pairs, n)
        }) by {
            assert(upd[0] == (name, idx));
            if n != name@ {
                assert(upd.skip(1) =~= pairs.skip(1));
            }
        }
    } else {
        assert(forall|j: int| 0 <= j < pairs.skip(1).len() ==> pairs.skip(1)[j] == pairs[j + 1]);
        lemma_find_named_update(pairs.skip(1), i - 1, name, idx);
        assert forall|n: Seq<char>| #[trigger] find_named(upd, n) == (if n == name@ {
            Some(idx)
        } else {
            find_named(pairs, n)
        }) by {
            assert(upd[0] == pairs[0]);
            assert(pairs[0].0@ != name@);
            if n == pairs[0].0@ {
                assert(find_named(upd, n) == Some(pairs[0].1));
            } else {
                assert(upd.skip(1) =~= pairs.skip(1).update(i - 1, (name, idx)));
                assert(find_named(upd, n) == find_named(pairs.skip(1).update(i - 1, (name, idx)), n));
            }
        }
    }
}

/// Appending a pair with a fresh key binds that key and leaves every
/// other lookup unchanged.
proof fn lemma_find_named_push(pairs: Seq<(String, u32)>, name: String, idx: u32)
    requires
        forall|j: int| 0 <= j < pairs.len() ==> (#[trigger] pairs[j]).0@ != name@,
    ensures
        forall|n: Seq<char>| #[trigger] find_named(pairs.push((name, idx)), n) == (if n == name@ {
            Some(idx)
        } else {
            find_named(pairs, n)
        }),
    decreases pairs.len(),
{
    let ext = pairs.push((name, idx));
    if pairs.len() == 0 {
        assert(ext.len() == 1);
        assert(ext[0] == (name, idx));
        assert forall|n: Seq<char>| #[trigger] find_named(ext, n) == (if n == name@ {
            Some(idx)
        } else {
            find_named(pairs, n)
        }) by {
            if n == name@ {
                assert(find_named(ext, n) == Some(idx));
            } else {
                assert(ext.skip(1).len() == 0);
                assert(find_named(ext.skip(1), n) is None);
                assert(find_named(ext, n) is None);
                assert(find_named(pairs, n) is None);
            }
        }
    } else {
        assert(forall|j: int| 0 <= j < pairs.skip(1).len() ==> pairs.skip(1)[j] == pairs[j + 1]);
        lemma_find_named_push(pairs.skip(1), name, idx);
        assert forall|n: Seq<char>| #[trigger] find_named(ext, n) == (if n == name@ {
            Some(idx)
        } else {
            find_named(pairs, n)
        }) by {
            assert(ext[0] == pairs[0]);
            assert(pairs[0].0@ != name@);
            if n != pairs[0].0@ {
                assert(ext.skip(1) =~= pairs.skip(1).push((name, idx)));
                assert(find_named(ext, n) == find_named(pairs.skip(1).push((name, idx)), n));
            }
        }
    }
}

/// The position of the first pair whose key matches, if any.
fn find_pair(pairs: &Vec<(String, u32)>, name: &String) -> (r: Option<usize>)
    ensures
        r matches Some(i) ==> {
            &&& 0 <= i < pairs@.len()
            &&& pairs@[i as int].0@ == name@
            &&& forall|j: int| 0 <= j < i ==> pairs@[j].0@ != name@
        },
        r is None ==> forall|j: int| 0 <= j < pairs@.len() ==> (#[trigger] pairs@[j]).0@
            != name@,
{
    let mut i: usize = 0;
    while i < pairs.len()
        invariant
            i <= pairs@.len(),
            forall|j: int| 0 <= j < i ==> (#[trigger] pairs@[j]).0@ != name@,
        decreases pairs@.len() - i,
    {
        if pairs[i].0 == *name {
            return Some(i);
        }
        i = i + 1;
    }
    None
}

/// The argument-binding record of one compute kernel: its name, the
/// arguments bound so far in index order, the name-to-index table for the
/// re-settable ones, and its work-size geometry.
pub struct Kernel {
    pub name: String,
    pub arg_index: u32,
    pub named_args: Vec<(String, u32)>,
    pub arg_count: u32,
    pub gwo: WorkSize,
    pub gws: WorkSize,
    pub lws: WorkSize,
    pub args: Vec<KernelArg>,
}

impl Kernel {
    /// Argument indices were handed out in order, and every named
    /// argument points at one of them under a unique name.
    pub open spec fn wf(self) -> bool {
        &&& self.arg_index as int == self.args@.len()
        &&& forall|i: int| 0 <= i < self.named_args@.len() ==> (#[trigger] self.named_args@[i]).1
            < self.arg_index
        &&& forall|a: int, b: int| 0 <= a < b < self.named_args@.len() ==> self.named_args@[a].0@
            != self.named_args@[b].0@
    }

    /// Returns a new kernel record with no arguments bound and only the
    /// global work size set.
    pub fn new(name: String, gws: WorkSize) -> (k: Kernel)
        ensures
            k.wf(),
            k.name@ == name@,
            k.arg_index == 0,
            k.named_args@.len() == 0,
            k.arg_count == 0,
            k.gwo is Unspecified,
            k.gws == gws,
            k.lws is Unspecified,
            k.args@.len() == 0,
    {
        Kernel {
            name,
            arg_index: 0,
            named_args: Vec::new(),
            arg_count: 0,
            gwo: WorkSize::Unspecified,
            gws,
            lws: WorkSize::Unspecified,
            args: Vec::new(),
        }
    }

    /// Sets the global work offset; its dimensions must match the global
    /// work size's.
    pub fn gwo(self, gwo: WorkSize) -> (k: Kernel)
        requires
            gwo.spec_dim_count() == self.gws.spec_dim_count(),
        ensures
            k == (Kernel { gwo, ..self }),
    {
        Kernel { gwo, ..self }
    }

    /// Sets the local work size; its dimensions must match the global
    /// work size's.
    pub fn lws(self, lws: WorkSize) -> (k: Kernel)
        requires
            lws.spec_dim_count() == self.gws.spec_dim_count(),
        ensures
            k == (Kernel { lws, ..self }),
    {
        Kernel { lws, ..self }
    }

    /// Records one argument under the next free index and returns that
    /// index.
    fn new_kernel_arg(&mut self, arg: KernelArg) -> (idx: u32)
        requires
            old(self).wf(),
            old(self).arg_index < u32::MAX,
        ensures
            final(self).wf(),
            idx == old(self).arg_index,
            final(self).arg_index == old(self).arg_index + 1,
            final(self).args@ == old(self).args@.push(arg),
            final(self).name == old(self).name,
            final(self).named_args == old(self).named_args,
            final(self).arg_count == old(self).arg_count,
            final(self).gwo == old(self).gwo,
            final(self).gws == old(self).gws,
            final(self).lws == old(self).lws,
    {
        let a_i = self.arg_index;
        self.args.push(arg);
        self.arg_index = self.arg_index + 1;
        a_i
    }

    /// Binds a buffer argument (null when absent) and returns its index.
    pub fn new_arg_envoy<T: OclNum>(&mut self, envoy_opt: Option<&Envoy<T>>) -> (idx: u32)
        requires
            old(self).wf(),
            old(self).arg_index < u32::MAX,
        ensures
            final(self).wf(),
            idx == old(self).arg_index,
            final(self).arg_index == old(self).arg_index + 1,
            final(self).args@ == old(self).args@.push(
                (KernelArg::Buffer { present: envoy_opt is Some }),
            ),
            final(self).name == old(self).name,
            final(self).named_args == old(self).named_args,
            final(self).arg_count == old(self).arg_count,
            final(self).gwo == old(self).gwo,
            final(self).gws == old(self).gws,
            final(self).lws == old(self).lws,
    {
        match envoy_opt {
            Some(_) => self.new_kernel_arg(KernelArg::Buffer { present: true }),
            None => self.new_kernel_arg(KernelArg::Buffer { present: false }),
        }
    }

    /// Binds a scalar argument (the default value when absent) and
    /// returns its index.
    pub fn new_arg_scalar<T: OclNum>(&mut self, scalar_opt: Option<T>) -> (idx: u32)
        requires
            old(self).wf(),
            old(self).arg_index < u32::MAX,
        ensures
            final(self).wf(),
            idx == old(self).arg_index,
            final(self).arg_index == old(self).arg_index + 1,
            final(self).args@ == old(self).args@.push(
                (KernelArg::Scalar { present: scalar_opt is Some }),
            ),
            final(self).name == old(self).name,
            final(self).named_args == old(self).named_args,
            final(self).arg_count == old(self).arg_count,
            final(self).gwo == old(self).gwo,
            final(self).gws == old(self).gws,
            final(self).lws == old(self).lws,
    {
        match scalar_opt {
            Some(_) => self.new_kernel_arg(KernelArg::Scalar { present: true }),
            None => self.new_kernel_arg(KernelArg::Scalar { present: false }),
        }
    }

    /// Binds a device-local scratch argument of `length` elements and
    /// returns its index.
    pub fn new_arg_local<T: OclNum>(&mut self, length: usize) -> (idx: u32)
        requires
            old(self).wf(),
            old(self).arg_index < u32::MAX,
        ensures
            final(self).wf(),
            idx == old(self).arg_index,
            final(self).arg_index == old(self).arg_index + 1,
            final(self).args@ == old(self).args@.push((KernelArg::Local { len: length })),
            final(self).name == old(self).name,
            final(self).named_args == old(self).named_args,
            final(self).arg_count == old(self).arg_count,
            final(self).gwo == old(self).gwo,
            final(self).gws == old(self).gws,
            final(self).lws == old(self).lws,
    {
        self.new_kernel_arg(KernelArg::Local { len: length })
    }

    /// Binds `name` to `idx` in the name-to-index table, overwriting any
    /// earlier binding of the same name.
    fn insert_named(&mut self, name: String, idx: u32)
        requires
            old(self).wf(),
            idx < old(self).arg_index,
        ensures
            final(self).wf(),
            final(self).name == old(self).name,
            final(self).arg_index == old(self).arg_index,
            final(self).args == old(self).args,
            final(self).arg_count == old(self).arg_count,
            final(self).gwo == old(self).gwo,
            final(self).gws == old(self).gws,
            final(self).lws == old(self).lws,
            forall|n: Seq<char>| #[trigger] find_named(final(self).named_args@, n) == (if n
                == name@ {
                Some(idx)
            } else {
                find_named(old(self).named_args@, n)
            }),
    {
        let ghost pairs0 = self.named_args@;
        let pos = find_pair(&self.named_args, &name);
        match pos {
            Some(i) => {
                proof {
                    lemma_find_named_update(pairs0, i as int, name, idx);
                }
                self.named_args[i] = (name, idx);
                proof {
                    assert(self.named_args@ == pairs0.update(i as int, (name, idx)));
                }
            },
            None => {
                proof {
                    lemma_find_named_push(pairs0, name, idx);
                }
                self.named_args.push((name, idx));
            },
        }
    }

    /// Binds a buffer argument.
    pub fn arg_env<T: OclNum>(self, envoy: &Envoy<T>) -> (k: Kernel)
        requires
            self.wf(),
            self.arg_index < u32::MAX,
        ensures
            k.wf(),
            k.args@ == self.args@.push((KernelArg::Buffer { present: true })),
            k.arg_index == self.arg_index + 1,
            k.name == self.name,
            k.named_args == self.named_args,
            k.arg_count == self.arg_count,
            k.gwo == self.gwo,
            k.gws == self.gws,
            k.lws == self.lws,
    {
        let mut k = self;
        k.new_arg_envoy(Some(envoy));
        k
    }

    /// Binds a scalar argument.
    pub fn arg_scl<T: OclNum>(self, scalar: T) -> (k: Kernel)
        requires
            self.wf(),
            self.arg_index < u32::MAX,
        ensures
            k.wf(),
            k.args@ == self.args@.push((KernelArg::Scalar { present: true })),
            k.arg_index == self.arg_index + 1,
            k.name == self.name,
            k.named_args == self.named_args,
            k.arg_count == self.arg_count,
            k.gwo == self.gwo,
            k.gws == self.gws,
            k.lws == self.lws,
    {
        let mut k = self;
        k.new_arg_scalar(Some(scalar));
        k
    }

    /// Binds a scalar argument (the default value when absent) under a
    /// name, so it can be re-set later.
    pub fn arg_scl_named<T: OclNum>(self, name: String, scalar_opt: Option<T>) -> (k: Kernel)
        requires
            self.wf(),
            self.arg_index < u32::MAX,
        ensures
            k.wf(),
            k.args@ == self.args@.push((KernelArg::Scalar { present: scalar_opt is Some })),
            k.arg_index == self.arg_index + 1,
            forall|n: Seq<char>| #[trigger] find_named(k.named_args@, n) == (if n == name@ {
                Some(self.arg_index)
            } else {
                find_named(self.named_args@, n)
            }),
            k.name == self.name,
            k.arg_count == self.arg_count,
            k.gwo == self.gwo,
            k.gws == self.gws,
            k.lws == self.lws,
    {
        let mut k = self;
        let idx = k.new_arg_scalar(scalar_opt);
        k.insert_named(name, idx);
        k
    }

    /// Binds a buffer argument (null when absent) under a name, so it
    /// can be re-set later.
    pub fn arg_env_named<T: OclNum>(
        self,
        name: String,
        envoy_opt: Option<&Envoy<T>>,
    ) -> (k: Kernel)
        requires
            self.wf(),
            self.arg_index < u32::MAX,
        ensures
            k.wf(),
            k.args@ == self.args@.push((KernelArg::Buffer { present: envoy_opt is Some })),
            k.arg_index == self.arg_index + 1,
            forall|n: Seq<char>| #[trigger] find_named(k.named_args@, n) == (if n == name@ {
                Some(self.arg_index)
            } else {
                find_named(self.named_args@, n)
            }),
            k.name == self.name,
            k.arg_count == self.arg_count,
            k.gwo == self.gwo,
            k.gws == self.gws,
            k.lws == self.lws,
    {
        let mut k = self;
        let idx = k.new_arg_envoy(envoy_opt);
        k.insert_named(name, idx);
        k
    }

    /// Binds a device-local scratch argument of `length` elements.
    pub fn arg_loc<T: OclNum>(self, length: usize) -> (k: Kernel)
        requires
            self.wf(),
            self.arg_index < u32::MAX,
        ensures
            k.wf(),
            k.args@ == self.args@.push((KernelArg::Local { len: length })),
            k.arg_index == self.arg_index + 1,
            k.name == self.name,
            k.named_args == self.named_args,
            k.arg_count == self.arg_count,
            k.gwo == self.gwo,
            k.gws == self.gws,
            k.lws == self.lws,
    {
        let mut k = self;
        k.new_arg_local::<T>(length);
        k
    }

    /// Re-binds the named argument to a scalar value.  The name must have
    /// been bound by one of the named binders.
    pub fn set_arg_scl_named<T: OclNum>(&mut self, name: String, _scalar: T)
        requires
            old(self).wf(),
            find_named(old(self).named_args@, name@) is Some,
        ensures
            final(self).wf(),
            final(self).args@ == old(self).args@.update(
                find_named(old(self).named_args@, name@).unwrap() as int,
                (KernelArg::Scalar { present: true }),
            ),
            final(self).name == old(self).name,
            final(self).arg_index == old(self).arg_index,
            final(self).named_args == old(self).named_args,
            final(self).arg_count == old(self).arg_count,
            final(self).gwo == old(self).gwo,
            final(self).gws == old(self).gws,
            final(self).lws == old(self).lws,
    {
        self.set_named_arg(name, KernelArg::Scalar { present: true });
    }

    /// Re-binds the named argument to a buffer.  The name must have been
    /// bound by one of the named binders.
    pub fn set_arg_env_named<T: OclNum>(&mut self, name: String, _envoy: &Envoy<T>)
        requires
            old(self).wf(),
            find_named(old(self).named_args@, name@) is Some,
        ensures
            final(self).wf(),
            final(self).args@ == old(self).args@.update(
                find_named(old(self).named_args@, name@).unwrap() as int,
                (KernelArg::Buffer { present: true }),
            ),
            final(self).name == old(self).name,
            final(self).arg_index == old(self).arg_index,
            final(self).named_args == old(self).named_args,
            final(self).arg_count == old(self).arg_count,
            final(self).gwo == old(self).gwo,
            final(self).gws == old(self).gws,
            final(self).lws == old(self).lws,
    {
        self.set_named_arg(name, KernelArg::Buffer { present: true });
    }

    /// Looks the name up and overwrites the argument record it points at.
    fn set_named_arg(&mut self, name: String, arg: KernelArg)
        requires
            old(self).wf(),
            find_named(old(self).named_args@, name@) is Some,
        ensures
            final(self).wf(),
            final(self).args@ == old(self).args@.update(
                find_named(old(self).named_args@, name@).unwrap() as int,
                arg,
            ),
            final(self).name == old(self).name,
            final(self).arg_index == old(self).arg_index,
            final(self).named_args == old(self).named_args,
            final(self).arg_count == old(self).arg_count,
            final(self).gwo == old(self).gwo,
            final(self).gws == old(self).gws,
            final(self).lws == old(self).lws,
    {
        let pos = find_pair(&self.named_args, &name);
        match pos {
            Some(i) => {
                let idx = self.named_args[i].1;
                proof {
                    lemma_find_named_at(self.named_args@, name@, i as int);
                    lemma_find_named_in_range(self.named_args@, name@, self.arg_index);
                }
                self.args[idx as usize] = arg;
            },
            None => {
                proof {
                    lemma_find_named_absent(self.named_args@, name@);
                    assert(false);
                }
            },
        }
    }

    /// The kernel's recorded argument-count field.
    pub fn arg_count(&self) -> (n: u32)
        ensures
            n == self.arg_count,
    {
        self.arg_count
    }
}

} // verus!
