//! The capability table of the modems this tool knows.
use vstd::prelude::*;

verus! {

/// What a modem model supports.
#[derive(Clone, Debug)]
pub struct ModemSpecs {
    pub manufacturer: String,
    pub model: String,
    pub supported_umts_bands: Vec<usize>,
    pub supported_lte_bands: Vec<usize>,
}

pub open spec fn l850_umts_bands() -> Seq<usize> {
    seq![1, 2, 4, 5, 8]
}

pub open spec fn l850_lte_bands() -> Seq<usize> {
    seq![1, 2, 3, 4, 5, 7, 8, 12, 13, 17, 18, 19, 20, 26, 28, 29, 30, 41, 66]
}

impl ModemSpecs {
    /// The capabilities of the Fibocom L850.
    pub open spec fn is_l850(&self) -> bool {
        &&& self.manufacturer@ == "Fibocom"@
        &&& self.model@ == "L850"@
        &&& self.supported_umts_bands@ == l850_umts_bands()
        &&& self.supported_lte_bands@ == l850_lte_bands()
    }

    /// No known capability.
    pub open spec fn is_unknown(&self) -> bool {
        &&& self.manufacturer@.len() == 0
        &&& self.model@.len() == 0
        &&& self.supported_umts_bands@.len() == 0
        &&& self.supported_lte_bands@.len() == 0
    }

    pub fn unknown() -> (r: ModemSpecs)
        ensures
            r.is_unknown(),
    {
        ModemSpecs {
            manufacturer: String::new(),
            model: String::new(),
            supported_umts_bands: Vec::new(),
            supported_lte_bands: Vec::new(),
        }
    }
}

/// A modem, with the capabilities of its model where the model is known.
pub struct Modem {
    pub spec: Option<ModemSpecs>,
}

impl Modem {
    /// Looks up the capabilities of a model code; an unknown code gives none.
    pub fn new(model: &str) -> (r: ModemSpecs)
        ensures
            model@ == "L850"@ ==> r.is_l850(),
            model@ != "L850"@ ==> r.is_unknown(),
    {
        proof {
            reveal_strlit("L850");
        }
        let is_l850 = model.unicode_len() == 4 && model.get_char(0) == 'L' && model.get_char(1)
            == '8' && model.get_char(2) == '5' && model.get_char(3) == '0';
        if is_l850 {
            assert(model@ =~= "L850"@);
            ModemSpecs {
                manufacturer: "Fibocom".to_owned(),
                model: "L850".to_owned(),
                supported_umts_bands: vec![1, 2, 4, 5, 8],
                supported_lte_bands: vec![
                    1,
                    2,
                    3,
                    4,
                    5,
                    7,
                    8,
                    12,
                    13,
                    17,
                    18,
                    19,
                    20,
                    26,
                    28,
                    29,
                    30,
                    41,
                    66,
                ],
            }
        } else {
            assert(model@ != "L850"@);
            ModemSpecs::unknown()
        }
    }

}

} // verus!
