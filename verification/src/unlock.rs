//! Finding the unlock proof among the witnesses of the spending transaction.

use vstd::prelude::*;

use crate::error::Error;
use crate::schemas::{parse_rgbpp_unlock, RGBPPUnlock, RGBPPUnlockView};
use crate::wire::{read_le_u32, u32_at};

verus! {

/// The view of a witness field that may be absent.
pub open spec fn field_view(field: Option<Vec<u8>>) -> Option<Seq<u8>> {
    match field {
        Some(bytes) => Some(bytes@),
        None => None,
    }
}

/// The views of the witness fields of all inputs, in order.
pub open spec fn fields_view(fields: Seq<Option<Vec<u8>>>) -> Seq<Option<Seq<u8>>> {
    fields.map_values(|f: Option<Vec<u8>>| field_view(f))
}

/// The view of an unlock proof or of its refusal.
pub open spec fn unlock_result_view(r: Result<RGBPPUnlock, Error>) -> Result<
    RGBPPUnlockView,
    Error,
> {
    match r {
        Ok(u) => Ok(u@),
        Err(e) => Err(e),
    }
}

/// The unlock proof in the witness of the input at `index`: the field there
/// must be present and must parse.
pub open spec fn unlock_at(index: nat, input_fields: Seq<Option<Seq<u8>>>) -> Result<
    RGBPPUnlockView,
    Error,
> {
    if index < input_fields.len() && input_fields[index as int] is Some && parse_rgbpp_unlock(
        input_fields[index as int]->0,
    ) is Some {
        Ok(parse_rgbpp_unlock(input_fields[index as int]->0)->0)
    } else {
        Err(Error::BadRGBPPUnlock)
    }
}

/// The unlock proof of a script group. `group_field` is the lock field of the
/// witness of the group's first input. Absent, there is no proof. Four bytes
/// long, it is the little-endian index of the input whose witness holds the
/// proof. Of any other length, it is the proof itself.
pub open spec fn unlock_of_group(
    group_field: Option<Seq<u8>>,
    input_fields: Seq<Option<Seq<u8>>>,
) -> Result<RGBPPUnlockView, Error> {
    match group_field {
        None => Err(Error::ItemMissing),
        Some(args) => if args.len() == 4 {
            unlock_at(u32_at(args, 0) as nat, input_fields)
        } else {
            match parse_rgbpp_unlock(args) {
                Some(u) => Ok(u),
                None => Err(Error::BadRGBPPUnlock),
            }
        },
    }
}

/// A field of four bytes always redirects: the proof is the one in the witness
/// of the input whose index the four bytes give, and nothing else is tried.
pub proof fn lemma_index_field_redirects(args: Seq<u8>, input_fields: Seq<Option<Seq<u8>>>)
    requires
        args.len() == 4,
    ensures
        unlock_of_group(Some(args), input_fields) == unlock_at(
            u32_at(args, 0) as nat,
            input_fields,
        ),
{
}

/// A field of any other length never redirects: it is parsed as the proof
/// itself, whatever the witnesses of the inputs hold.
pub proof fn lemma_direct_field_never_redirects(
    args: Seq<u8>,
    input_fields: Seq<Option<Seq<u8>>>,
)
    requires
        args.len() != 4,
    ensures
        parse_rgbpp_unlock(args) is Some ==> unlock_of_group(Some(args), input_fields) == Ok::<
            RGBPPUnlockView,
            Error,
        >(parse_rgbpp_unlock(args)->0),
        parse_rgbpp_unlock(args) is None ==> unlock_of_group(Some(args), input_fields) == Err::<
            RGBPPUnlockView,
            Error,
        >(Error::BadRGBPPUnlock),
{
}

/// Reads the unlock proof from the witness of the input at `index`, where
/// `input_fields` holds the lock field of each input's witness.
pub fn load_unlock(index: usize, input_fields: &Vec<Option<Vec<u8>>>) -> (r: Result<
    RGBPPUnlock,
    Error,
>)
    ensures
        unlock_result_view(r) == unlock_at(index as nat, fields_view(input_fields@)),
{
    if index >= input_fields.len() {
        return Err(Error::BadRGBPPUnlock);
    }
    match &input_fields[index] {
        None => Err(Error::BadRGBPPUnlock),
        Some(args) => match RGBPPUnlock::from_slice(args.as_slice()) {
            Some(unlock) => Ok(unlock),
            None => Err(Error::BadRGBPPUnlock),
        },
    }
}

/// Finds the unlock proof of the script group. Mostly it stands in the witness
/// of the group's first input. Cells that seal outputs of one Bitcoin
/// transaction share one proof: their witness then holds the index of the input
/// whose witness has it.
pub fn fetch_unlock_from_witness(
    group_field: &Option<Vec<u8>>,
    input_fields: &Vec<Option<Vec<u8>>>,
) -> (r: Result<RGBPPUnlock, Error>)
    ensures
        unlock_result_view(r) == unlock_of_group(
            field_view(*group_field),
            fields_view(input_fields@),
        ),
{
    match group_field {
        None => Err(Error::ItemMissing),
        Some(args) => {
            if args.len() == 4 {
                let index: u32 = read_le_u32(args.as_slice(), 0);
                load_unlock(index as usize, input_fields)
            } else {
                match RGBPPUnlock::from_slice(args.as_slice()) {
                    Some(unlock) => Ok(unlock),
                    None => Err(Error::BadRGBPPUnlock),
                }
            }
        },
    }
}

} // verus!
