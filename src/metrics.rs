use vstd::prelude::*;

verus! {

/// The representation that every value of a metric must carry.
#[derive(Clone, Copy, Debug, PartialEq, Eq, Structural)]
pub enum MetricType {
    U64,
    F64,
}

/// The unit in which a metric is measured.
#[derive(Clone, Copy, Debug, PartialEq, Eq, Structural)]
pub enum Unit {
    Unity,
    Second,
    Watt,
    Joule,
    Byte,
}

/// An opaque identifier of a registered metric.
#[derive(Clone, Copy, Debug, PartialEq, Eq, Structural)]
pub struct RawMetricId {
    pub id: u64,
}

impl RawMetricId {
    pub fn as_u64(&self) -> (r: u64)
        ensures
            r == self.id,
    {
        self.id
    }
}

/// A metric identifier paired with the value representation that its points carry.
#[derive(Clone, Copy, Debug, PartialEq, Eq, Structural)]
pub struct TypedMetricId {
    pub id: RawMetricId,
    pub value_type: MetricType,
}

impl TypedMetricId {
    pub fn untyped_id(&self) -> (r: RawMetricId)
        ensures
            r == self.id,
    {
        self.id
    }
}

/// An immutable record describing a registered metric.
#[derive(Clone, Debug)]
pub struct MetricDefinition {
    pub name: String,
    pub value_type: MetricType,
    pub unit: Unit,
    pub description: String,
}

/// Errors of the metric registry.
#[derive(Clone, Copy, Debug, PartialEq, Eq, Structural)]
pub enum MetricError {
    /// A metric with the same name is already registered.
    DuplicateName,
    /// The registry no longer accepts new metrics (the start phase is over).
    RegistrationClosed,
    /// No metric has the given identifier.
    NotFound,
}

/// True when no two definitions share a name.
pub open spec fn names_unique(defs: Seq<MetricDefinition>) -> bool {
    forall|i: int, j: int|
        0 <= i < defs.len() && 0 <= j < defs.len() && i != j ==> #[trigger] defs[i].name@
            != #[trigger] defs[j].name@
}

/// True when some definition in `defs` is named `name`.
pub open spec fn has_name(defs: Seq<MetricDefinition>, name: Seq<char>) -> bool {
    exists|i: int| 0 <= i < defs.len() && #[trigger] defs[i].name@ == name
}

/// The namespace of metrics shared by every plugin of one pipeline.
///
/// The identifier of a metric is its position in the registry: identifiers are
/// never recycled, and the registry only grows.
pub struct MetricRegistry {
    defs: Vec<MetricDefinition>,
    open: bool,
}

impl MetricRegistry {
    /// The definitions, in the order of registration.
    pub closed spec fn defs(&self) -> Seq<MetricDefinition> {
        self.defs@
    }

    /// Whether new metrics are still accepted.
    pub closed spec fn is_open(&self) -> bool {
        self.open
    }

    pub open spec fn wf(&self) -> bool {
        &&& names_unique(self.defs())
        &&& self.defs().len() < u64::MAX
    }

    /// True when `id` resolves to a definition.
    pub open spec fn contains_id(&self, id: RawMetricId) -> bool {
        id.id < self.defs().len()
    }

    pub fn new() -> (r: MetricRegistry)
        ensures
            r.wf(),
            r.defs() == Seq::<MetricDefinition>::empty(),
            r.is_open(),
    {
        MetricRegistry { defs: Vec::new(), open: true }
    }

    pub fn len(&self) -> (r: usize)
        ensures
            r == self.defs().len(),
    {
        self.defs.len()
    }

    pub fn accepts_new_metrics(&self) -> (r: bool)
        ensures
            r == self.is_open(),
    {
        self.open
    }

    /// Ends the start phase: from now on `create_metric` fails.
    pub fn close(&mut self)
        ensures
            final(self).defs() == old(self).defs(),
            !final(self).is_open(),
    {
        self.open = false;
    }

    /// Looks up the position of the metric named `name`.
    pub fn find_by_name(&self, name: &str) -> (r: Option<usize>)
        requires
            self.wf(),
        ensures
            r is None <==> !has_name(self.defs(), name@),
            r matches Some(i) ==> i < self.defs().len() && self.defs()[i as int].name@ == name@,
    {
        let wanted = name.to_owned();
        let mut i: usize = 0;
        while i < self.defs.len()
            invariant
                i <= self.defs@.len(),
                wanted@ == name@,
                forall|k: int| 0 <= k < i ==> #[trigger] self.defs@[k].name@ != name@,
            decreases self.defs@.len() - i,
        {
            let same = self.defs[i].name.eq(&wanted);
            if same {
                return Some(i);
            }
            i = i + 1;
        }
        None
    }

    /// Registers a new metric and returns its typed identifier.
    ///
    /// Fails with `RegistrationClosed` once the start phase is over, and with
    /// `DuplicateName` when the name is taken; the registry is then unchanged.
    pub fn create_metric(
        &mut self,
        name: &str,
        value_type: MetricType,
        unit: Unit,
        description: &str,
    ) -> (r: Result<TypedMetricId, MetricError>)
        requires
            old(self).wf(),
            old(self).defs().len() + 1 < u64::MAX,
        ensures
            final(self).wf(),
            final(self).is_open() == old(self).is_open(),
            !old(self).is_open() ==> r == Err::<TypedMetricId, MetricError>(
                MetricError::RegistrationClosed,
            ),
            old(self).is_open() && has_name(old(self).defs(), name@) ==> r == Err::<
                TypedMetricId,
                MetricError,
            >(MetricError::DuplicateName),
            r is Err ==> final(self).defs() == old(self).defs(),
            old(self).is_open() && !has_name(old(self).defs(), name@) ==> {
                &&& r == Ok::<TypedMetricId, MetricError>(
                    (TypedMetricId {
                        id: RawMetricId { id: old(self).defs().len() as u64 },
                        value_type,
                    }),
                )
                &&& final(self).defs().len() == old(self).defs().len() + 1
                &&& final(self).defs().take(old(self).defs().len() as int) == old(self).defs()
                &&& final(self).defs().last().name@ == name@
                &&& final(self).defs().last().value_type == value_type
                &&& final(self).defs().last().unit == unit
                &&& final(self).defs().last().description@ == description@
            },
    {
        if !self.open {
            return Err(MetricError::RegistrationClosed);
        }
        if self.find_by_name(name).is_some() {
            return Err(MetricError::DuplicateName);
        }
        let id = self.defs.len() as u64;
        let def = MetricDefinition {
            name: name.to_owned(),
            value_type,
            unit,
            description: description.to_owned(),
        };
        self.defs.push(def);
        proof {
            assert(old(self).defs() =~= self.defs().take(old(self).defs().len() as int));
        }
        Ok(TypedMetricId { id: RawMetricId { id }, value_type })
    }

    /// Resolves an identifier back to its definition.
    pub fn resolve(&self, id: RawMetricId) -> (r: Result<&MetricDefinition, MetricError>)
        ensures
            self.contains_id(id) ==> r == Ok::<&MetricDefinition, MetricError>(
                &self.defs()[id.id as int],
            ),
            !self.contains_id(id) ==> r == Err::<&MetricDefinition, MetricError>(
                MetricError::NotFound,
            ),
    {
        if id.id < self.defs.len() as u64 {
            Ok(&self.defs[id.id as usize])
        } else {
            Err(MetricError::NotFound)
        }
    }
}

/// Once a name is registered, no later successful registration carries it
/// again: a registry that grew from `before` holds the name exactly once.
pub proof fn lemma_name_registered_once(
    before: MetricRegistry,
    after: MetricRegistry,
    name: Seq<char>,
)
    requires
        after.wf(),
        before.defs().len() <= after.defs().len(),
        after.defs().take(before.defs().len() as int) == before.defs(),
        has_name(before.defs(), name),
    ensures
        forall|j: int|
            before.defs().len() <= j < after.defs().len() ==> #[trigger] after.defs()[j].name@
                != name,
{
    let i = choose|i: int| 0 <= i < before.defs().len() && #[trigger] before.defs()[i].name@ == name;
    assert(after.defs()[i] == before.defs()[i]) by {
        assert(after.defs().take(before.defs().len() as int)[i] == after.defs()[i]);
    }
    assert forall|j: int| before.defs().len() <= j < after.defs().len() implies #[trigger] after.defs()[j].name@ != name by {
        assert(i != j);
    }
}

} // verus!
