//! Types of the ADS-B decoding crate that the library carries.
use vstd::prelude::*;

use crate::rate_limited_manager::ItemKey;

verus! {

/// The 24-bit ICAO aircraft address, three bytes.
#[verifier::external_type_specification]
pub struct ExIcao(adsb_deku::ICAO);

/// The 24-bit ICAO address that identifies an aircraft.
pub type AdsbIcao = adsb_deku::ICAO;

impl ItemKey for adsb_deku::ICAO {
    type Key = Seq<u8>;

    open spec fn key(&self) -> Seq<u8> {
        self.0@
    }

    fn same_key(&self, other: &Self) -> (r: bool) {
        let same = self.0[0] == other.0[0] && self.0[1] == other.0[1] && self.0[2] == other.0[2];
        proof {
            if same {
                assert(self.0@ =~= other.0@);
            } else if self.0[0] != other.0[0] {
                assert(self.0@[0] != other.0@[0]);
            } else if self.0[1] != other.0[1] {
                assert(self.0@[1] != other.0@[1]);
            } else {
                assert(self.0@[2] != other.0@[2]);
            }
        }
        same
    }

    fn clone_key(&self) -> (r: Self) {
        let r = adsb_deku::ICAO([self.0[0], self.0[1], self.0[2]]);
        assert(r.0@ =~= self.0@);
        r
    }
}

} // verus!
