//! Interrupt identifiers and the three classes they fall into.
//!
//! The controller addresses interrupts by a number in `[0, 1024)`. The numbers
//! below [`IntId::SPECIAL_START`] are split into three contiguous classes:
//! software-generated (SGI), private peripheral (PPI) and shared peripheral
//! (SPI) interrupts. The numbers from [`IntId::SPECIAL_START`] on are reserved;
//! no constructor mints them, they only come back from the hardware.

use vstd::prelude::*;
use vstd::std_specs::convert::FromSpec;

verus! {

/// An interrupt ID.
///
/// The view of an identifier is the number the controller knows it by.
/// Equality is equality of that number.
#[derive(Copy, Clone, PartialEq, Eq, Ord, Hash, Structural)]
pub struct IntId(usize);

impl View for IntId {
    type V = nat;

    closed spec fn view(&self) -> nat {
        self.0 as nat
    }
}

/// Different types of interrupt that the GIC handles.
#[derive(Copy, Clone, Debug, PartialEq, Eq, Structural)]
pub enum InterruptType {
    /// Software-generated interrupt.
    ///
    /// SGIs are typically used for inter-processor communication and are
    /// generated by a write to an SGI register in the GIC.
    SGI,
    /// Private Peripheral Interrupt.
    ///
    /// Peripheral interrupts that are private to one core.
    PPI,
    /// Shared Peripheral Interrupt.
    ///
    /// Peripheral interrupts that can delivered to any connected core.
    SPI,
}

impl InterruptType {
    /// The first interrupt ID of the class.
    pub open spec fn base(self) -> nat {
        match self {
            InterruptType::SGI => IntId::SGI_START as nat,
            InterruptType::PPI => IntId::PPI_START as nat,
            InterruptType::SPI => IntId::SPI_START as nat,
        }
    }

    /// How many interrupt IDs the class holds.
    pub open spec fn count(self) -> nat {
        match self {
            InterruptType::SGI => (IntId::PPI_START - IntId::SGI_START) as nat,
            InterruptType::PPI => (IntId::SPI_START - IntId::PPI_START) as nat,
            InterruptType::SPI => (IntId::SPECIAL_START - IntId::SPI_START) as nat,
        }
    }
}

/// The interrupt ID of the `index`-th interrupt of `class`, if the class has
/// that many.
pub open spec fn translate(index: usize, class: InterruptType) -> Option<usize> {
    if index < class.count() {
        Some((class.base() + index) as usize)
    } else {
        None
    }
}

/// Translate an interrupt of a given type to a GIC INTID.
///
/// An index that the class does not have gives `None`: use this where the
/// index comes from configuration and may be wrong.
#[verifier::when_used_as_spec(translate)]
pub fn translate_irq(id: usize, int_type: InterruptType) -> (intid: Option<usize>)
    ensures
        intid == translate(id, int_type),
{
    match int_type {
        InterruptType::SGI => {
            if id < IntId::PPI_START - IntId::SGI_START {
                Some(id + IntId::SGI_START)
            } else {
                None
            }
        },
        InterruptType::PPI => {
            if id < IntId::SPI_START - IntId::PPI_START {
                Some(id + IntId::PPI_START)
            } else {
                None
            }
        },
        InterruptType::SPI => {
            if id < IntId::SPECIAL_START - IntId::SPI_START {
                Some(id + IntId::SPI_START)
            } else {
                None
            }
        },
    }
}

impl IntId {
    /// Maximum number of interrupts supported by the GIC.
    pub const GIC_MAX_IRQ: usize = 1020;

    /// The ID of the first Software Generated Interrupt.
    pub const SGI_START: usize = 0;

    /// The ID of the first Private Peripheral Interrupt.
    pub const PPI_START: usize = 16;

    /// The ID of the first Shared Peripheral Interrupt.
    pub const SPI_START: usize = 32;

    /// The first special interrupt ID.
    pub const SPECIAL_START: usize = 1020;

    /// The identifier that the constructor of `class` mints for `index`.
    pub closed spec fn minted(class: InterruptType, index: usize) -> IntId {
        IntId((class.base() + index) as usize)
    }

    /// Returns the interrupt ID for the given Software Generated Interrupt.
    pub fn sgi(sgi: usize) -> (intid: Self)
        requires
            sgi < InterruptType::SGI.count(),
        ensures
            intid == Self::minted(InterruptType::SGI, sgi),
            intid@ == Self::SGI_START + sgi,
    {
        vstd::pervasive::runtime_assert(sgi < Self::PPI_START - Self::SGI_START);
        Self(Self::SGI_START + sgi)
    }

    /// Returns the interrupt ID for the given Private Peripheral Interrupt.
    pub fn ppi(ppi: usize) -> (intid: Self)
        requires
            ppi < InterruptType::PPI.count(),
        ensures
            intid == Self::minted(InterruptType::PPI, ppi),
            intid@ == Self::PPI_START + ppi,
    {
        vstd::pervasive::runtime_assert(ppi < Self::SPI_START - Self::PPI_START);
        Self(Self::PPI_START + ppi)
    }

    /// Returns the interrupt ID for the given Shared Peripheral Interrupt.
    pub fn spi(spi: usize) -> (intid: Self)
        requires
            spi < InterruptType::SPI.count(),
        ensures
            intid == Self::minted(InterruptType::SPI, spi),
            intid@ == Self::SPI_START + spi,
    {
        vstd::pervasive::runtime_assert(spi < Self::SPECIAL_START - Self::SPI_START);
        Self(Self::SPI_START + spi)
    }

    /// Whether the identifier lies in the SGI range.
    pub open spec fn spec_is_sgi(self) -> bool {
        self@ < Self::PPI_START
    }

    /// Returns whether this interrupt ID is for a Software Generated Interrupt.
    #[verifier::when_used_as_spec(spec_is_sgi)]
    pub fn is_sgi(self) -> (b: bool)
        ensures
            b == self.spec_is_sgi(),
    {
        self.0 < Self::PPI_START
    }

    /// Whether the identifier lies in the SGI or the PPI range.
    pub open spec fn spec_is_private(self) -> bool {
        self@ < Self::SPI_START
    }

    /// Returns whether this interrupt ID is private to a core, i.e. it is an SGI or PPI.
    #[verifier::when_used_as_spec(spec_is_private)]
    pub fn is_private(self) -> (b: bool)
        ensures
            b == self.spec_is_private(),
    {
        self.0 < Self::SPI_START
    }

    /// The class of the identifier and its index within that class; `None`
    /// for a special identifier.
    pub open spec fn spec_classify(self) -> Option<(InterruptType, usize)> {
        if self@ < Self::PPI_START {
            Some((InterruptType::SGI, (self@ - Self::SGI_START) as usize))
        } else if self@ < Self::SPI_START {
            Some((InterruptType::PPI, (self@ - Self::PPI_START) as usize))
        } else if self@ < Self::SPECIAL_START {
            Some((InterruptType::SPI, (self@ - Self::SPI_START) as usize))
        } else {
            None
        }
    }

    /// Splits the identifier into its class and its index within that class.
    ///
    /// This is [`translate_irq`] read backwards. A special identifier belongs
    /// to no class and gives `None`.
    #[verifier::when_used_as_spec(spec_classify)]
    pub fn classify(self) -> (class_form: Option<(InterruptType, usize)>)
        ensures
            class_form == self.spec_classify(),
    {
        if self.0 < Self::PPI_START {
            Some((InterruptType::SGI, self.0 - Self::SGI_START))
        } else if self.0 < Self::SPI_START {
            Some((InterruptType::PPI, self.0 - Self::PPI_START))
        } else if self.0 < Self::SPECIAL_START {
            Some((InterruptType::SPI, self.0 - Self::SPI_START))
        } else {
            None
        }
    }

    /// Two identifiers with the same number are the same identifier, and an
    /// identifier's number fits the machine word it is kept in.
    pub proof fn lemma_number_identifies(a: IntId, b: IntId)
        ensures
            a@ == b@ <==> a == b,
            a@ <= usize::MAX,
    {
    }

    /// The conversions between an identifier and its number lose nothing:
    /// each undoes the other, for every number and every identifier.
    pub proof fn lemma_conversions_lossless(id: IntId, number: usize)
        ensures
            IntId::from_spec(number)@ == number,
            usize::from_spec(id) == id@,
            usize::from_spec(IntId::from_spec(number)) == number,
            IntId::from_spec(usize::from_spec(id)) == id,
            id@ <= u32::MAX ==> u32::from_spec(id) == id@,
    {
    }

    /// A minted identifier has the number `class.base() + index`.
    pub proof fn lemma_minted(class: InterruptType, index: usize)
        requires
            index < class.count(),
        ensures
            Self::minted(class, index)@ == class.base() + index,
            Self::minted(class, index)@ < Self::SPECIAL_START,
    {
    }

    /// The three classes partition the identifiers below
    /// [`IntId::SPECIAL_START`]: each of them is software-generated, or
    /// private without being software-generated, or shared, and never two of
    /// these at once; a special identifier is none of them.
    pub proof fn lemma_classes_partition(id: IntId)
        ensures
            ({
                let software = id.is_sgi();
                let private_peripheral = id.is_private() && !id.is_sgi();
                let shared = !id.is_private() && id@ < Self::SPECIAL_START;
                &&& id@ < Self::SPECIAL_START <==> software || private_peripheral || shared
                &&& !(software && private_peripheral)
                &&& !(software && shared)
                &&& !(private_peripheral && shared)
                &&& software <==> (id.classify() matches Some((InterruptType::SGI, _)))
                &&& private_peripheral <==> (id.classify() matches Some((InterruptType::PPI, _)))
                &&& shared <==> (id.classify() matches Some((InterruptType::SPI, _)))
            }),
    {
    }

    /// Where a class has the index, translating the index gives the number of
    /// the identifier that the class's constructor mints for it.
    pub proof fn lemma_translate_agrees_with_constructor(class: InterruptType, index: usize)
        requires
            index < class.count(),
        ensures
            translate_irq(index, class) == Some(Self::minted(class, index)@ as usize),
    {
    }

    /// Translation gives `Some` exactly for the indices that the class has,
    /// and then a number of that class, below [`IntId::SPECIAL_START`].
    pub proof fn lemma_translate_range(class: InterruptType, index: usize)
        ensures
            translate_irq(index, class) is Some <==> index < class.count(),
            translate_irq(index, class) matches Some(global) ==> {
                &&& class.base() <= global < class.base() + class.count()
                &&& global < Self::SPECIAL_START
            },
    {
    }

    /// Every identifier below [`IntId::SPECIAL_START`] splits into a class and
    /// an index that the class has, and both the class's constructor and the
    /// translation of that index give the identifier back.
    pub proof fn lemma_round_trip(id: IntId)
        requires
            id@ < Self::SPECIAL_START,
        ensures
            id.classify() is Some,
            id.classify() matches Some((class, index)) ==> {
                &&& index < class.count()
                &&& Self::minted(class, index) == id
                &&& translate_irq(index, class) == Some(id@ as usize)
            },
    {
    }

    /// Splitting is the inverse of translation: an index of a class translates
    /// to a number exactly if the identifier with that number splits into
    /// that class and index.
    pub proof fn lemma_classify_inverts_translate(class: InterruptType, index: usize, id: IntId)
        ensures
            translate_irq(index, class) == Some(id@ as usize) <==> {
                id.classify() == Some((class, index))
            },
    {
    }
}

impl From<IntId> for u32 {
    /// The number of the identifier, cut to its low 32 bits. Every number
    /// that the controller knows fits in them.
    fn from(intid: IntId) -> (value: u32)
        ensures
            value == intid@ % 0x1_0000_0000,
            intid@ <= u32::MAX ==> value == intid@,
    {
        let wide: u64 = intid.0 as u64;
        let value: u32 = #[verifier::truncate]
        (wide as u32);
        assert(value == wide % 0x1_0000_0000) by (bit_vector)
            requires
                value == wide as u32,
        ;
        value
    }
}

impl vstd::std_specs::convert::FromSpecImpl<IntId> for u32 {
    open spec fn obeys_from_spec() -> bool {
        true
    }

    open spec fn from_spec(intid: IntId) -> u32 {
        (intid@ % 0x1_0000_0000) as u32
    }
}

impl From<IntId> for usize {
    /// The number of the identifier.
    fn from(intid: IntId) -> (value: usize)
        ensures
            value == intid@,
    {
        intid.0
    }
}

impl vstd::std_specs::convert::FromSpecImpl<IntId> for usize {
    open spec fn obeys_from_spec() -> bool {
        true
    }

    open spec fn from_spec(intid: IntId) -> usize {
        intid@ as usize
    }
}

impl From<usize> for IntId {
    /// The identifier with the given number, whatever its range: this is how
    /// a value read from the hardware becomes an identifier.
    fn from(id: usize) -> (intid: IntId)
        ensures
            intid@ == id,
    {
        Self(id)
    }
}

impl vstd::std_specs::convert::FromSpecImpl<usize> for IntId {
    open spec fn obeys_from_spec() -> bool {
        true
    }

    closed spec fn from_spec(id: usize) -> IntId {
        IntId(id)
    }
}

} // verus!
