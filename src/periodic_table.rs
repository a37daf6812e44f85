//! Chemical elements, identified by atomic number.

use vstd::prelude::*;

verus! {

/// The lowest atomic number that names an element.
pub const MIN_ATOMIC_NUMBER: u8 = 1;

/// The highest atomic number that names an element (oganesson).
pub const MAX_ATOMIC_NUMBER: u8 = 118;

/// A chemical element, listed in order of atomic number from hydrogen (1)
/// to oganesson (118).
#[derive(Debug, Clone, Copy, PartialEq, Eq, Structural, PartialOrd, Ord, Hash)]
pub enum Element {
    Hydrogen,
    Helium,
    Lithium,
    Beryllium,
    Boron,
    Carbon,
    Nitrogen,
    Oxygen,
    Fluorine,
    Neon,
    Sodium,
    Magnesium,
    Aluminium,
    Silicon,
    Phosphorus,
    Sulfur,
    Chlorine,
    Argon,
    Potassium,
    Calcium,
    Scandium,
    Titanium,
    Vanadium,
    Chromium,
    Manganese,
    Iron,
    Cobalt,
    Nickel,
    Copper,
    Zinc,
    Gallium,
    Germanium,
    Arsenic,
    Selenium,
    Bromine,
    Krypton,
    Rubidium,
    Strontium,
    Yttrium,
    Zirconium,
    Niobium,
    Molybdenum,
    Technetium,
    Ruthenium,
    Rhodium,
    Palladium,
    Silver,
    Cadmium,
    Indium,
    Tin,
    Antimony,
    Tellurium,
    Iodine,
    Xenon,
    Cesium,
    Barium,
    Lanthanum,
    Cerium,
    Praseodymium,
    Neodymium,
    Promethium,
    Samarium,
    Europium,
    Gadolinium,
    Terbium,
    Dysprosium,
    Holmium,
    Erbium,
    Thulium,
    Ytterbium,
    Lutetium,
    Hafnium,
    Tantalum,
    Tungsten,
    Rhenium,
    Osmium,
    Iridium,
    Platinum,
    Gold,
    Mercury,
    Thallium,
    Lead,
    Bismuth,
    Polonium,
    Astatine,
    Radon,
    Francium,
    Radium,
    Actinium,
    Thorium,
    Protactinium,
    Uranium,
    Neptunium,
    Plutonium,
    Americium,
    Curium,
    Berkelium,
    Californium,
    Einsteinium,
    Fermium,
    Mendelevium,
    Nobelium,
    Lawrencium,
    Rutherfordium,
    Dubnium,
    Seaborgium,
    Bohrium,
    Hassium,
    Meitnerium,
    Darmstadtium,
    Roentgenium,
    Copernicium,
    Nihonium,
    Flerovium,
    Moscovium,
    Livermorium,
    Tennessine,
    Oganesson,
}

impl Element {
    /// The atomic number of this element: its position in the periodic table.
    pub open spec fn spec_atomic_number(self) -> u8 {
        match self {
            Element::Hydrogen => 1u8,
            Element::Helium => 2u8,
            Element::Lithium => 3u8,
            Element::Beryllium => 4u8,
            Element::Boron => 5u8,
            Element::Carbon => 6u8,
            Element::Nitrogen => 7u8,
            Element::Oxygen => 8u8,
            Element::Fluorine => 9u8,
            Element::Neon => 10u8,
            Element::Sodium => 11u8,
            Element::Magnesium => 12u8,
            Element::Aluminium => 13u8,
            Element::Silicon => 14u8,
            Element::Phosphorus => 15u8,
            Element::Sulfur => 16u8,
            Element::Chlorine => 17u8,
            Element::Argon => 18u8,
            Element::Potassium => 19u8,
            Element::Calcium => 20u8,
            Element::Scandium => 21u8,
            Element::Titanium => 22u8,
            Element::Vanadium => 23u8,
            Element::Chromium => 24u8,
            Element::Manganese => 25u8,
            Element::Iron => 26u8,
            Element::Cobalt => 27u8,
            Element::Nickel => 28u8,
            Element::Copper => 29u8,
            Element::Zinc => 30u8,
            Element::Gallium => 31u8,
            Element::Germanium => 32u8,
            Element::Arsenic => 33u8,
            Element::Selenium => 34u8,
            Element::Bromine => 35u8,
            Element::Krypton => 36u8,
            Element::Rubidium => 37u8,
            Element::Strontium => 38u8,
            Element::Yttrium => 39u8,
            Element::Zirconium => 40u8,
            Element::Niobium => 41u8,
            Element::Molybdenum => 42u8,
            Element::Technetium => 43u8,
            Element::Ruthenium => 44u8,
            Element::Rhodium => 45u8,
            Element::Palladium => 46u8,
            Element::Silver => 47u8,
            Element::Cadmium => 48u8,
            Element::Indium => 49u8,
            Element::Tin => 50u8,
            Element::Antimony => 51u8,
            Element::Tellurium => 52u8,
            Element::Iodine => 53u8,
            Element::Xenon => 54u8,
            Element::Cesium => 55u8,
            Element::Barium => 56u8,
            Element::Lanthanum => 57u8,
            Element::Cerium => 58u8,
            Element::Praseodymium => 59u8,
            Element::Neodymium => 60u8,
            Element::Promethium => 61u8,
            Element::Samarium => 62u8,
            Element::Europium => 63u8,
            Element::Gadolinium => 64u8,
            Element::Terbium => 65u8,
            Element::Dysprosium => 66u8,
            Element::Holmium => 67u8,
            Element::Erbium => 68u8,
            Element::Thulium => 69u8,
            Element::Ytterbium => 70u8,
            Element::Lutetium => 71u8,
            Element::Hafnium => 72u8,
            Element::Tantalum => 73u8,
            Element::Tungsten => 74u8,
            Element::Rhenium => 75u8,
            Element::Osmium => 76u8,
            Element::Iridium => 77u8,
            Element::Platinum => 78u8,
            Element::Gold => 79u8,
            Element::Mercury => 80u8,
            Element::Thallium => 81u8,
            Element::Lead => 82u8,
            Element::Bismuth => 83u8,
            Element::Polonium => 84u8,
            Element::Astatine => 85u8,
            Element::Radon => 86u8,
            Element::Francium => 87u8,
            Element::Radium => 88u8,
            Element::Actinium => 89u8,
            Element::Thorium => 90u8,
            Element::Protactinium => 91u8,
            Element::Uranium => 92u8,
            Element::Neptunium => 93u8,
            Element::Plutonium => 94u8,
            Element::Americium => 95u8,
            Element::Curium => 96u8,
            Element::Berkelium => 97u8,
            Element::Californium => 98u8,
            Element::Einsteinium => 99u8,
            Element::Fermium => 100u8,
            Element::Mendelevium => 101u8,
            Element::Nobelium => 102u8,
            Element::Lawrencium => 103u8,
            Element::Rutherfordium => 104u8,
            Element::Dubnium => 105u8,
            Element::Seaborgium => 106u8,
            Element::Bohrium => 107u8,
            Element::Hassium => 108u8,
            Element::Meitnerium => 109u8,
            Element::Darmstadtium => 110u8,
            Element::Roentgenium => 111u8,
            Element::Copernicium => 112u8,
            Element::Nihonium => 113u8,
            Element::Flerovium => 114u8,
            Element::Moscovium => 115u8,
            Element::Livermorium => 116u8,
            Element::Tennessine => 117u8,
            Element::Oganesson => 118u8,
        }
    }

    /// The atomic number of this element.
    #[verifier::when_used_as_spec(spec_atomic_number)]
    pub fn atomic_number(self) -> (r: u8)
        ensures
            r == self.spec_atomic_number(),
            MIN_ATOMIC_NUMBER <= r <= MAX_ATOMIC_NUMBER,
    {
        match self {
            Element::Hydrogen => 1,
            Element::Helium => 2,
            Element::Lithium => 3,
            Element::Beryllium => 4,
            Element::Boron => 5,
            Element::Carbon => 6,
            Element::Nitrogen => 7,
            Element::Oxygen => 8,
            Element::Fluorine => 9,
            Element::Neon => 10,
            Element::Sodium => 11,
            Element::Magnesium => 12,
            Element::Aluminium => 13,
            Element::Silicon => 14,
            Element::Phosphorus => 15,
            Element::Sulfur => 16,
            Element::Chlorine => 17,
            Element::Argon => 18,
            Element::Potassium => 19,
            Element::Calcium => 20,
            Element::Scandium => 21,
            Element::Titanium => 22,
            Element::Vanadium => 23,
            Element::Chromium => 24,
            Element::Manganese => 25,
            Element::Iron => 26,
            Element::Cobalt => 27,
            Element::Nickel => 28,
            Element::Copper => 29,
            Element::Zinc => 30,
            Element::Gallium => 31,
            Element::Germanium => 32,
            Element::Arsenic => 33,
            Element::Selenium => 34,
            Element::Bromine => 35,
            Element::Krypton => 36,
            Element::Rubidium => 37,
            Element::Strontium => 38,
            Element::Yttrium => 39,
            Element::Zirconium => 40,
            Element::Niobium => 41,
            Element::Molybdenum => 42,
            Element::Technetium => 43,
            Element::Ruthenium => 44,
            Element::Rhodium => 45,
            Element::Palladium => 46,
            Element::Silver => 47,
            Element::Cadmium => 48,
            Element::Indium => 49,
            Element::Tin => 50,
            Element::Antimony => 51,
            Element::Tellurium => 52,
            Element::Iodine => 53,
            Element::Xenon => 54,
            Element::Cesium => 55,
            Element::Barium => 56,
            Element::Lanthanum => 57,
            Element::Cerium => 58,
            Element::Praseodymium => 59,
            Element::Neodymium => 60,
            Element::Promethium => 61,
            Element::Samarium => 62,
            Element::Europium => 63,
            Element::Gadolinium => 64,
            Element::Terbium => 65,
            Element::Dysprosium => 66,
            Element::Holmium => 67,
            Element::Erbium => 68,
            Element::Thulium => 69,
            Element::Ytterbium => 70,
            Element::Lutetium => 71,
            Element::Hafnium => 72,
            Element::Tantalum => 73,
            Element::Tungsten => 74,
            Element::Rhenium => 75,
            Element::Osmium => 76,
            Element::Iridium => 77,
            Element::Platinum => 78,
            Element::Gold => 79,
            Element::Mercury => 80,
            Element::Thallium => 81,
            Element::Lead => 82,
            Element::Bismuth => 83,
            Element::Polonium => 84,
            Element::Astatine => 85,
            Element::Radon => 86,
            Element::Francium => 87,
            Element::Radium => 88,
            Element::Actinium => 89,
            Element::Thorium => 90,
            Element::Protactinium => 91,
            Element::Uranium => 92,
            Element::Neptunium => 93,
            Element::Plutonium => 94,
            Element::Americium => 95,
            Element::Curium => 96,
            Element::Berkelium => 97,
            Element::Californium => 98,
            Element::Einsteinium => 99,
            Element::Fermium => 100,
            Element::Mendelevium => 101,
            Element::Nobelium => 102,
            Element::Lawrencium => 103,
            Element::Rutherfordium => 104,
            Element::Dubnium => 105,
            Element::Seaborgium => 106,
            Element::Bohrium => 107,
            Element::Hassium => 108,
            Element::Meitnerium => 109,
            Element::Darmstadtium => 110,
            Element::Roentgenium => 111,
            Element::Copernicium => 112,
            Element::Nihonium => 113,
            Element::Flerovium => 114,
            Element::Moscovium => 115,
            Element::Livermorium => 116,
            Element::Tennessine => 117,
            Element::Oganesson => 118,
        }
    }

    /// The element with atomic number `n`, or `None` when no element has it.
    pub fn from_atomic_number(n: u8) -> (r: Option<Self>)
        ensures
            r.is_some() <==> MIN_ATOMIC_NUMBER <= n <= MAX_ATOMIC_NUMBER,
            r matches Some(e) ==> e.spec_atomic_number() == n,
    {
        match n {
            1 => Some(Element::Hydrogen),
            2 => Some(Element::Helium),
            3 => Some(Element::Lithium),
            4 => Some(Element::Beryllium),
            5 => Some(Element::Boron),
            6 => Some(Element::Carbon),
            7 => Some(Element::Nitrogen),
            8 => Some(Element::Oxygen),
            9 => Some(Element::Fluorine),
            10 => Some(Element::Neon),
            11 => Some(Element::Sodium),
            12 => Some(Element::Magnesium),
            13 => Some(Element::Aluminium),
            14 => Some(Element::Silicon),
            15 => Some(Element::Phosphorus),
            16 => Some(Element::Sulfur),
            17 => Some(Element::Chlorine),
            18 => Some(Element::Argon),
            19 => Some(Element::Potassium),
            20 => Some(Element::Calcium),
            21 => Some(Element::Scandium),
            22 => Some(Element::Titanium),
            23 => Some(Element::Vanadium),
            24 => Some(Element::Chromium),
            25 => Some(Element::Manganese),
            26 => Some(Element::Iron),
            27 => Some(Element::Cobalt),
            28 => Some(Element::Nickel),
            29 => Some(Element::Copper),
            30 => Some(Element::Zinc),
            31 => Some(Element::Gallium),
            32 => Some(Element::Germanium),
            33 => Some(Element::Arsenic),
            34 => Some(Element::Selenium),
            35 => Some(Element::Bromine),
            36 => Some(Element::Krypton),
            37 => Some(Element::Rubidium),
            38 => Some(Element::Strontium),
            39 => Some(Element::Yttrium),
            40 => Some(Element::Zirconium),
            41 => Some(Element::Niobium),
            42 => Some(Element::Molybdenum),
            43 => Some(Element::Technetium),
            44 => Some(Element::Ruthenium),
            45 => Some(Element::Rhodium),
            46 => Some(Element::Palladium),
            47 => Some(Element::Silver),
            48 => Some(Element::Cadmium),
            49 => Some(Element::Indium),
            50 => Some(Element::Tin),
            51 => Some(Element::Antimony),
            52 => Some(Element::Tellurium),
            53 => Some(Element::Iodine),
            54 => Some(Element::Xenon),
            55 => Some(Element::Cesium),
            56 => Some(Element::Barium),
            57 => Some(Element::Lanthanum),
            58 => Some(Element::Cerium),
            59 => Some(Element::Praseodymium),
            60 => Some(Element::Neodymium),
            61 => Some(Element::Promethium),
            62 => Some(Element::Samarium),
            63 => Some(Element::Europium),
            64 => Some(Element::Gadolinium),
            65 => Some(Element::Terbium),
            66 => Some(Element::Dysprosium),
            67 => Some(Element::Holmium),
            68 => Some(Element::Erbium),
            69 => Some(Element::Thulium),
            70 => Some(Element::Ytterbium),
            71 => Some(Element::Lutetium),
            72 => Some(Element::Hafnium),
            73 => Some(Element::Tantalum),
            74 => Some(Element::Tungsten),
            75 => Some(Element::Rhenium),
            76 => Some(Element::Osmium),
            77 => Some(Element::Iridium),
            78 => Some(Element::Platinum),
            79 => Some(Element::Gold),
            80 => Some(Element::Mercury),
            81 => Some(Element::Thallium),
            82 => Some(Element::Lead),
            83 => Some(Element::Bismuth),
            84 => Some(Element::Polonium),
            85 => Some(Element::Astatine),
            86 => Some(Element::Radon),
            87 => Some(Element::Francium),
            88 => Some(Element::Radium),
            89 => Some(Element::Actinium),
            90 => Some(Element::Thorium),
            91 => Some(Element::Protactinium),
            92 => Some(Element::Uranium),
            93 => Some(Element::Neptunium),
            94 => Some(Element::Plutonium),
            95 => Some(Element::Americium),
            96 => Some(Element::Curium),
            97 => Some(Element::Berkelium),
            98 => Some(Element::Californium),
            99 => Some(Element::Einsteinium),
            100 => Some(Element::Fermium),
            101 => Some(Element::Mendelevium),
            102 => Some(Element::Nobelium),
            103 => Some(Element::Lawrencium),
            104 => Some(Element::Rutherfordium),
            105 => Some(Element::Dubnium),
            106 => Some(Element::Seaborgium),
            107 => Some(Element::Bohrium),
            108 => Some(Element::Hassium),
            109 => Some(Element::Meitnerium),
            110 => Some(Element::Darmstadtium),
            111 => Some(Element::Roentgenium),
            112 => Some(Element::Copernicium),
            113 => Some(Element::Nihonium),
            114 => Some(Element::Flerovium),
            115 => Some(Element::Moscovium),
            116 => Some(Element::Livermorium),
            117 => Some(Element::Tennessine),
            118 => Some(Element::Oganesson),
            _ => None,
        }
    }
}

/// Every element has exactly one atomic number, and each atomic number in
/// range belongs to exactly one element: the numbering is a bijection.
pub proof fn lemma_atomic_number_injective(a: Element, b: Element)
    ensures
        a.spec_atomic_number() == b.spec_atomic_number() <==> a == b,
{
}

} // verus!
