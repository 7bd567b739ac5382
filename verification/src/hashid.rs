//! harsh's hashids, as game links use them.
//!
//! The types here hold harsh's values in private fields, and only the
//! trusted calls into harsh below make them: a [`SlugCodec`] holds a hasher
//! together with the salt it was built from, and what it encodes and decodes
//! is named over that salt.

use vstd::prelude::*;
use vstd::string::*;
use harsh::{BuildError, Harsh, HarshBuilder};
use harsh::Error as HarshError;

use crate::webapp::{decodable, short_number_bound};

verus! {

broadcast use vstd::std_specs::vec::group_vec_axioms;

#[verifier::external_type_specification]
#[verifier::external_body]
pub struct ExHarsh(Harsh);

#[verifier::external_type_specification]
#[verifier::external_body]
pub struct ExHarshBuilder(HarshBuilder);

#[verifier::external_type_specification]
#[verifier::external_body]
pub struct ExHarshBuildError(BuildError);

#[verifier::external_type_specification]
#[verifier::external_body]
pub struct ExHarshError(HarshError);


/// Turns game ids and sides into the hashids of game links and back.
///
/// A codec is only made by `builder_build`, from a builder that
/// `builder_salt` gave the salt and nothing else, so its hasher is built from
/// that salt alone; the hashids it reads and writes are a function of the salt.
pub struct SlugCodec {
    harsh: Harsh,
    salt: String,
}

impl View for SlugCodec {
    type V = Seq<char>;

    closed spec fn view(&self) -> Seq<char> {
        self.salt@
    }
}

/// The hashid that harsh's `Harsh::encode` writes for `values` with a hasher
/// built from `salt` and the default alphabet.
pub uninterp spec fn hashid_encode(salt: Seq<char>, values: Seq<u64>) -> Seq<char>;

/// What harsh's `Harsh::decode` reads from `text` with a hasher built from
/// `salt` and the default alphabet: the numbers, or `None` for an error.
pub uninterp spec fn hashid_decode(salt: Seq<char>, text: Seq<char>) -> Option<Seq<u64>>;

/// harsh's `Harsh::builder`.
#[verifier::external_body]
pub(crate) fn harsh_builder() -> HarshBuilder {
    Harsh::builder()
}

/// A harsh builder given a salt and nothing else; the salt is its view.
/// Only `builder_salt` makes one.
pub(crate) struct SaltedBuilder {
    builder: HarshBuilder,
    salt: String,
}

impl View for SaltedBuilder {
    type V = Seq<char>;

    closed spec fn view(&self) -> Seq<char> {
        self.salt@
    }
}

/// harsh's `HarshBuilder::salt`, with the characters of `salt`; the builder
/// is kept with the salt it was given.
#[verifier::external_body]
pub(crate) fn builder_salt(builder: HarshBuilder, salt: &String) -> (b: SaltedBuilder)
    ensures
        b@ == salt@,
{
    SaltedBuilder { builder: builder.salt(salt.clone()), salt: salt.clone() }
}

/// harsh's `HarshBuilder::build` on a builder that was given only a salt;
/// the hasher is kept with that salt. Such a builder keeps harsh's default
/// alphabet of 62 distinct letters, which passes the check of at least 16,
/// so the build succeeds.
#[verifier::external_body]
pub(crate) fn builder_build(salted: SaltedBuilder) -> (r: Result<SlugCodec, BuildError>)
    ensures
        r is Ok,
        r is Ok ==> r->Ok_0@ == salted@,
{
    match salted.builder.build() {
        Ok(harsh) => Ok(SlugCodec { harsh, salt: salted.salt }),
        Err(e) => Err(e),
    }
}


/// harsh's `Harsh::encode` of `values`. The result is named by
/// `hashid_encode`; as harsh's documentation shows, decoding it gives the
/// values back when there is at least one. As its source shows, the text is
/// one lottery letter and then, for each number, its base-44 digits (letters
/// that are no separators) followed by one separator except after the last;
/// with the default configuration there is no padding. So numbers below
/// 44^11 give a decodable text.
#[verifier::external_body]
pub(crate) fn encode_hashid(codec: &SlugCodec, values: &Vec<u64>) -> (r: String)
    ensures
        r@ == hashid_encode(codec@, values@),
        values@.len() > 0 ==> hashid_decode(codec@, r@) == Some(values@),
        (forall|k: int| 0 <= k < values@.len() ==> (#[trigger] values@[k]) < short_number_bound())
            ==> decodable(r@),
{
    codec.harsh.encode(values)
}

/// harsh's `Harsh::decode` of `text`. The outcome is named by
/// `hashid_decode`; harsh only returns numbers whose encoding is `text`.
/// Decoding adds up the digits of each number without a check, so a number
/// of `max_run() + 1` digits whose value exceeds `u64::MAX` overflows. The
/// guard letters that decoding cuts off depend on the salt, so where a
/// number's digits begin is not known beforehand: texts with a run of more
/// than `max_run()` non-separators after the first letter, and texts that
/// are not ASCII, are left out.
#[verifier::external_body]
pub(crate) fn decode_hashid(codec: &SlugCodec, text: &String) -> (r: Result<Vec<u64>, HarshError>)
    requires
        decodable(text@),
    ensures
        match hashid_decode(codec@, text@) {
            Some(v) => r matches Ok(w) && w@ == v,
            None => r is Err,
        },
        r matches Ok(w) ==> hashid_encode(codec@, w@) == text@,
{
    codec.harsh.decode(text)
}


} // verus!
