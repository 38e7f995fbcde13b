//! The fields of a frame, their bit widths, and the range check that every
//! frame passes before it is packed.

use vstd::prelude::*;

verus! {

/// One of the eight scalar fields of a frame, in the order in which they
/// are packed.
#[derive(Debug, Clone, Copy, PartialEq, Eq, Structural)]
pub enum Field {
    Destination,
    Priority,
    Action,
    Source,
    DeviceType,
    DeviceId,
    DataType,
    Operation,
}

impl Field {
    /// The number of bits the field takes in the packed region.
    pub open spec fn bit_width(self) -> nat {
        match self {
            Field::Destination => 5,
            Field::Priority => 2,
            Field::Action => 4,
            Field::Source => 5,
            Field::DeviceType => 6,
            Field::DeviceId => 6,
            Field::DataType => 4,
            Field::Operation => 8,
        }
    }

    /// The largest value the field can carry: two to the power of its
    /// width, less one.
    pub open spec fn max_value(self) -> u8 {
        match self {
            Field::Destination => 31,
            Field::Priority => 3,
            Field::Action => 15,
            Field::Source => 31,
            Field::DeviceType => 63,
            Field::DeviceId => 63,
            Field::DataType => 15,
            Field::Operation => 255,
        }
    }

    /// The field's name as a sequence of characters.
    pub open spec fn label(self) -> Seq<char> {
        match self {
            Field::Destination => "destination"@,
            Field::Priority => "priority"@,
            Field::Action => "action"@,
            Field::Source => "source"@,
            Field::DeviceType => "device_type"@,
            Field::DeviceId => "device_id"@,
            Field::DataType => "data_type"@,
            Field::Operation => "operation"@,
        }
    }

    /// The number of bits the field takes in the packed region.
    pub fn width(self) -> (w: u8)
        ensures
            w == self.bit_width(),
    {
        match self {
            Field::Destination => 5,
            Field::Priority => 2,
            Field::Action => 4,
            Field::Source => 5,
            Field::DeviceType => 6,
            Field::DeviceId => 6,
            Field::DataType => 4,
            Field::Operation => 8,
        }
    }

    /// The largest value the field can carry.
    pub fn max_allowed(self) -> (m: u8)
        ensures
            m == self.max_value(),
    {
        match self {
            Field::Destination => 31,
            Field::Priority => 3,
            Field::Action => 15,
            Field::Source => 31,
            Field::DeviceType => 63,
            Field::DeviceId => 63,
            Field::DataType => 15,
            Field::Operation => 255,
        }
    }

    /// The field's name, as it is written in `FrameFields`.
    pub fn name(self) -> (s: &'static str)
        ensures
            s@ == self.label(),
    {
        match self {
            Field::Destination => "destination",
            Field::Priority => "priority",
            Field::Action => "action",
            Field::Source => "source",
            Field::DeviceType => "device_type",
            Field::DeviceId => "device_id",
            Field::DataType => "data_type",
            Field::Operation => "operation",
        }
    }
}

/// The input of the encoder: eight unsigned fields of fixed bit width and
/// four payload bytes that the encoder carries through untouched.
#[derive(Debug, Clone, Copy)]
pub struct FrameFields {
    /// 5 bits
    pub destination: u8,
    /// 2 bits
    pub priority: u8,
    /// 4 bits
    pub action: u8,
    /// 5 bits
    pub source: u8,
    /// 6 bits
    pub device_type: u8,
    /// 6 bits
    pub device_id: u8,
    /// 4 bits
    pub data_type: u8,
    /// 8 bits
    pub operation: u8,
    /// exactly four bytes, already encoded by the caller
    pub payload: [u8; 4],
}

/// A field holds a value that does not fit in its bit width.
#[derive(Debug, Clone, Copy, PartialEq, Eq, Structural)]
pub struct FieldOutOfRangeError {
    /// the field at fault
    pub field: Field,
    /// the value it held
    pub value: u8,
    /// the largest value it may hold
    pub max_allowed: u8,
}

impl FieldOutOfRangeError {
    /// The name of the field at fault.
    pub fn field_name(&self) -> (s: &'static str)
        ensures
            s@ == self.field.label(),
    {
        self.field.name()
    }
}

impl FrameFields {
    /// The value that `self` holds for `field`.
    pub open spec fn value_of(self, field: Field) -> u8 {
        match field {
            Field::Destination => self.destination,
            Field::Priority => self.priority,
            Field::Action => self.action,
            Field::Source => self.source,
            Field::DeviceType => self.device_type,
            Field::DeviceId => self.device_id,
            Field::DataType => self.data_type,
            Field::Operation => self.operation,
        }
    }

    /// Whether `field` holds a value that fits in its bit width.
    pub open spec fn fits(self, field: Field) -> bool {
        self.value_of(field) <= field.max_value()
    }

    /// Whether every field fits in its bit width.
    pub open spec fn in_range(self) -> bool {
        forall|field: Field| self.fits(field)
    }

    /// The first field, in packing order, whose value does not fit; `None`
    /// where every field fits.
    pub open spec fn first_misfit(self) -> Option<Field> {
        if !self.fits(Field::Destination) {
            Some(Field::Destination)
        } else if !self.fits(Field::Priority) {
            Some(Field::Priority)
        } else if !self.fits(Field::Action) {
            Some(Field::Action)
        } else if !self.fits(Field::Source) {
            Some(Field::Source)
        } else if !self.fits(Field::DeviceType) {
            Some(Field::DeviceType)
        } else if !self.fits(Field::DeviceId) {
            Some(Field::DeviceId)
        } else if !self.fits(Field::DataType) {
            Some(Field::DataType)
        } else {
            None
        }
    }

    /// The error that the range check gives for `self`: it names the first
    /// field that does not fit, with its value and its limit.
    pub open spec fn range_error(self) -> Option<FieldOutOfRangeError> {
        match self.first_misfit() {
            Some(field) => Some(
                FieldOutOfRangeError {
                    field,
                    value: self.value_of(field),
                    max_allowed: field.max_value(),
                },
            ),
            None => None,
        }
    }

    /// Checks one field against its limit.
    fn check_field(&self, field: Field, value: u8) -> (r: Result<(), FieldOutOfRangeError>)
        requires
            value == self.value_of(field),
        ensures
            r is Ok <==> self.fits(field),
            r is Err ==> r->Err_0 == (FieldOutOfRangeError {
                field,
                value,
                max_allowed: field.max_value(),
            }),
    {
        let max_allowed: u8 = field.max_allowed();
        if value > max_allowed {
            Err(FieldOutOfRangeError { field, value, max_allowed })
        } else {
            Ok(())
        }
    }

    /// Checks every field against its bit width. Fails on the first field,
    /// in packing order, whose value is two to the power of its width or
    /// more.
    pub fn validate(&self) -> (r: Result<(), FieldOutOfRangeError>)
        ensures
            r is Ok <==> self.in_range(),
            r is Ok <==> self.range_error() is None,
            r is Err ==> self.range_error() == Some(r->Err_0),
    {
        proof {
            lemma_in_range_iff_no_misfit(*self);
        }
        self.check_field(Field::Destination, self.destination)?;
        self.check_field(Field::Priority, self.priority)?;
        self.check_field(Field::Action, self.action)?;
        self.check_field(Field::Source, self.source)?;
        self.check_field(Field::DeviceType, self.device_type)?;
        self.check_field(Field::DeviceId, self.device_id)?;
        self.check_field(Field::DataType, self.data_type)?;
        Ok(())
    }
}

/// Every field fits exactly when the range check finds no field at fault.
pub proof fn lemma_in_range_iff_no_misfit(fields: FrameFields)
    ensures
        fields.in_range() <==> fields.first_misfit() is None,
        fields.in_range() <==> fields.range_error() is None,
{
    if fields.first_misfit() is None {
        assert forall|field: Field| fields.fits(field) by {
            match field {
                Field::Destination => {},
                Field::Priority => {},
                Field::Action => {},
                Field::Source => {},
                Field::DeviceType => {},
                Field::DeviceId => {},
                Field::DataType => {},
                Field::Operation => {},
            }
        }
    } else {
        assert(!fields.fits(fields.first_misfit()->Some_0));
    }
}

/// A field fits exactly when its value is below two to the power of its
/// width.
pub proof fn lemma_fits_iff_below_power(fields: FrameFields, field: Field)
    ensures
        fields.fits(field) <==> (fields.value_of(field) as int) < vstd::arithmetic::power2::pow2(
            field.bit_width(),
        ),
        field.max_value() + 1 == vstd::arithmetic::power2::pow2(field.bit_width()),
{
    vstd::arithmetic::power2::lemma2_to64();
}

} // verus!
