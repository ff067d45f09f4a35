//! Descriptions of models: what a declaration says of a model and of each
//! of its fields, and the rules a description has to meet before anything
//! is built from it.

use vstd::prelude::*;
use vstd::string::StringExecFns;
use crate::common::is_unit_ty;

verus! {

/// Which way the values of a field flow.
#[derive(Clone, Copy, Debug, PartialEq, Eq, Structural)]
pub enum Direction {
    /// The host writes, native code reads.
    In,
    /// Native code writes, the host reads.
    Out,
    /// The field is a nested model, which has directions of its own.
    Model,
}

/// How many elements a field was declared with.
#[derive(Clone, Copy, Debug, PartialEq, Eq, Structural)]
pub enum FieldLen {
    /// `name: T`, a single element.
    Scalar,
    /// `name: T[]`, as many as the nested model brings.
    Implicit,
    /// `name: T[N]`, with `N` already resolved.
    Fixed(usize),
}

/// Why nothing can be built from a description.
#[derive(Clone, Copy, Debug, PartialEq, Eq, Structural)]
pub enum ModelError {
    /// The field is of the unit type and tagged `out`: a signal can only
    /// come in.
    UnitOut { field: usize },
    /// The field is a nested model and has an explicit length.
    ExplicitModelLength { field: usize },
    /// The field holds values and has an implicit length.
    ImplicitValueLength { field: usize },
}

impl ModelError {
    /// The field at fault, by its place in the description.
    pub open spec fn field_spec(&self) -> usize {
        match *self {
            ModelError::UnitOut { field } => field,
            ModelError::ExplicitModelLength { field } => field,
            ModelError::ImplicitValueLength { field } => field,
        }
    }

    /// What the fault is, in words.
    pub open spec fn message_spec(&self) -> Seq<char> {
        match *self {
            ModelError::UnitOut { .. } => "`()` type cannot be used with `out` direction"@,
            ModelError::ExplicitModelLength { .. } =>
                "Model fields must use implicit length syntax `[]`. Explicit length `[N]` is not allowed for models."@,
            ModelError::ImplicitValueLength { .. } =>
                "Value fields must use explicit length syntax `[N]`. Implicit length `[]` is not allowed."@,
        }
    }

    /// The field at fault, by its place in the description.
    pub fn field(&self) -> (f: usize)
        ensures
            f == self.field_spec(),
    {
        match *self {
            ModelError::UnitOut { field } => field,
            ModelError::ExplicitModelLength { field } => field,
            ModelError::ImplicitValueLength { field } => field,
        }
    }

    /// What the fault is, in words.
    pub fn message(&self) -> (m: String)
        ensures
            m@ == self.message_spec(),
    {
        match *self {
            ModelError::UnitOut { .. } => String::from_str(
                "`()` type cannot be used with `out` direction",
            ),
            ModelError::ExplicitModelLength { .. } => String::from_str(
                "Model fields must use implicit length syntax `[]`. Explicit length `[N]` is not allowed for models.",
            ),
            ModelError::ImplicitValueLength { .. } => String::from_str(
                "Value fields must use explicit length syntax `[N]`. Implicit length `[]` is not allowed.",
            ),
        }
    }
}

/// One field of a plain model.
pub struct ModelField {
    pub is_model: bool,
    pub name: String,
    /// The element type as written.
    pub ty: String,
    pub len: FieldLen,
}

/// A plain model: channels that no host is bound to.
pub struct Model {
    /// A public model is made anew by every construction; any other is one
    /// shared instance.
    pub public: bool,
    pub model_name: String,
    /// The number of instances, where the model was declared as an array.
    pub len: Option<usize>,
    pub fields: Vec<ModelField>,
}

/// One field of a host-bound model.
pub struct SlintModelField {
    pub direction: Direction,
    pub name: String,
    /// The element type as written.
    pub ty: String,
    pub len: FieldLen,
}

/// A host-bound model: its fields are bound to the rows of a host global.
pub struct SlintModel {
    pub export_path: Option<String>,
    pub public: bool,
    pub model_name: String,
    /// The number of instances, where the model was declared as an array.
    pub len: Option<usize>,
    /// The name of the host global the model is bound to.
    pub global_name: String,
    pub fields: Vec<SlintModelField>,
}

/// The first fault in a list of findings, if there is one.
pub open spec fn first_fault(findings: Seq<Option<ModelError>>) -> Option<ModelError>
    decreases findings.len(),
{
    if findings.len() == 0 {
        None
    } else if findings[0] is Some {
        findings[0]
    } else {
        first_fault(findings.drop_first())
    }
}

impl ModelField {
    /// What is wrong with this field, the field at `index` of its model: a
    /// nested model may not state its length, a field of values must.
    pub open spec fn fault(&self, index: int) -> Option<ModelError> {
        if self.is_model && self.len is Fixed {
            Some(ModelError::ExplicitModelLength { field: index as usize })
        } else if !self.is_model && self.len is Implicit {
            Some(ModelError::ImplicitValueLength { field: index as usize })
        } else {
            None
        }
    }

    fn check(&self, index: usize) -> (r: Option<ModelError>)
        ensures
            r == self.fault(index as int),
    {
        match self.len {
            FieldLen::Fixed(_) => {
                if self.is_model {
                    Some(ModelError::ExplicitModelLength { field: index })
                } else {
                    None
                }
            },
            FieldLen::Implicit => {
                if self.is_model {
                    None
                } else {
                    Some(ModelError::ImplicitValueLength { field: index })
                }
            },
            FieldLen::Scalar => None,
        }
    }
}

impl Model {
    /// What each field has wrong with it, in field order.
    pub open spec fn findings(&self) -> Seq<Option<ModelError>> {
        Seq::new(self.fields@.len(), |i: int| self.fields@[i].fault(i))
    }

    /// Whether instances can be built from this description.
    pub open spec fn valid(&self) -> bool {
        first_fault(self.findings()) is None
    }

    /// Checks the description before anything is built from it. The first
    /// field at fault, in field order, is reported.
    pub fn validate(&self) -> (r: Result<(), ModelError>)
        ensures
            r == match first_fault(self.findings()) {
                Some(e) => Err::<(), ModelError>(e),
                None => Ok(()),
            },
    {
        let mut i: usize = self.fields.len();
        let mut found: Option<ModelError> = None;
        while i > 0
            invariant
                i <= self.fields@.len(),
                found == first_fault(self.findings().skip(i as int)),
            decreases i,
        {
            i -= 1;
            let here = self.fields[i].check(i);
            proof {
                let rest = self.findings().skip(i as int);
                assert(rest.drop_first() =~= self.findings().skip(i + 1));
                assert(rest[0] == here);
            }
            if here.is_some() {
                found = here;
            }
        }
        assert(self.findings().skip(0) =~= self.findings());
        match found {
            Some(e) => Err(e),
            None => Ok(()),
        }
    }
}

impl SlintModelField {
    /// Whether the field is a signal: a single element of the unit type.
    pub open spec fn is_signal(&self) -> bool {
        self.len is Scalar && self.ty@ == "()"@
    }

    /// What is wrong with this field as a signal, the field at `index` of
    /// its model: a signal cannot go out.
    pub open spec fn signal_fault(&self, index: int) -> Option<ModelError> {
        if self.is_signal() && self.direction == Direction::Out {
            Some(ModelError::UnitOut { field: index as usize })
        } else {
            None
        }
    }

    /// What is wrong with this field as a field of data, the field at
    /// `index` of its model: a nested model may not state its length, a
    /// field of values must.
    pub open spec fn data_fault(&self, index: int) -> Option<ModelError> {
        if self.is_signal() {
            None
        } else if self.direction == Direction::Model && self.len is Fixed {
            Some(ModelError::ExplicitModelLength { field: index as usize })
        } else if self.direction != Direction::Model && self.len is Implicit {
            Some(ModelError::ImplicitValueLength { field: index as usize })
        } else {
            None
        }
    }

    /// Whether the field is a signal.
    pub fn signal(&self) -> (r: bool)
        ensures
            r == self.is_signal(),
    {
        match self.len {
            FieldLen::Scalar => is_unit_ty(self.ty.as_str()),
            _ => false,
        }
    }

    fn check_signal(&self, index: usize) -> (r: Option<ModelError>)
        ensures
            r == self.signal_fault(index as int),
    {
        if self.signal() && self.direction == Direction::Out {
            Some(ModelError::UnitOut { field: index })
        } else {
            None
        }
    }

    fn check_data(&self, index: usize) -> (r: Option<ModelError>)
        ensures
            r == self.data_fault(index as int),
    {
        if self.signal() {
            return None;
        }
        match self.len {
            FieldLen::Fixed(_) => {
                if self.direction == Direction::Model {
                    Some(ModelError::ExplicitModelLength { field: index })
                } else {
                    None
                }
            },
            FieldLen::Implicit => {
                if self.direction == Direction::Model {
                    None
                } else {
                    Some(ModelError::ImplicitValueLength { field: index })
                }
            },
            FieldLen::Scalar => None,
        }
    }
}

impl SlintModel {
    /// What each field has wrong with it as a signal, in field order.
    pub open spec fn signal_findings(&self) -> Seq<Option<ModelError>> {
        Seq::new(self.fields@.len(), |i: int| self.fields@[i].signal_fault(i))
    }

    /// What each field has wrong with it as a field of data, in field
    /// order.
    pub open spec fn data_findings(&self) -> Seq<Option<ModelError>> {
        Seq::new(self.fields@.len(), |i: int| self.fields@[i].data_fault(i))
    }

    /// The first fault of the description: the signals are looked at
    /// before the fields of data.
    pub open spec fn fault(&self) -> Option<ModelError> {
        match first_fault(self.signal_findings()) {
            Some(e) => Some(e),
            None => first_fault(self.data_findings()),
        }
    }

    /// Whether instances can be built from this description.
    pub open spec fn valid(&self) -> bool {
        self.fault() is None
    }

    /// Checks the description before anything is built from it. A signal
    /// that is tagged `out` is reported before any other fault; among
    /// faults of one kind the first in field order is reported.
    pub fn validate(&self) -> (r: Result<(), ModelError>)
        ensures
            r == match self.fault() {
                Some(e) => Err::<(), ModelError>(e),
                None => Ok(()),
            },
    {
        let mut i: usize = self.fields.len();
        let mut signal: Option<ModelError> = None;
        let mut data: Option<ModelError> = None;
        while i > 0
            invariant
                i <= self.fields@.len(),
                signal == first_fault(self.signal_findings().skip(i as int)),
                data == first_fault(self.data_findings().skip(i as int)),
            decreases i,
        {
            i -= 1;
            let s = self.fields[i].check_signal(i);
            let d = self.fields[i].check_data(i);
            proof {
                let srest = self.signal_findings().skip(i as int);
                assert(srest.drop_first() =~= self.signal_findings().skip(i + 1));
                assert(srest[0] == s);
                let drest = self.data_findings().skip(i as int);
                assert(drest.drop_first() =~= self.data_findings().skip(i + 1));
                assert(drest[0] == d);
            }
            if s.is_some() {
                signal = s;
            }
            if d.is_some() {
                data = d;
            }
        }
        assert(self.signal_findings().skip(0) =~= self.signal_findings());
        assert(self.data_findings().skip(0) =~= self.data_findings());
        match signal {
            Some(e) => Err(e),
            None => match data {
                Some(e) => Err(e),
                None => Ok(()),
            },
        }
    }
}

} // verus!
