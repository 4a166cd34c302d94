use vstd::prelude::*;
use crate::codec::parse_catalogue_spec;
use crate::domain::EntryView;
use crate::manager::{
    created_vault_for, lemma_created_vault_round_trip, lemma_created_vault_wrong_passphrase,
    open_spec, OpenFailure,
};
use crate::store::file_matches;
use crate::vault::VaultView;

verus! {

/// Round trip: a vault record created for a passphrase around a catalogue
/// opens under that passphrase, and the plaintext parses back to exactly
/// that catalogue. `init` and `change_master_password` establish
/// `file_matches`; `unlock` consumes `open_spec`.
pub proof fn lemma_vault_round_trip(v: VaultView, password: Seq<char>, es: Seq<EntryView>)
    requires
        file_matches(v, password, es),
    ensures
        open_spec(password, v) is Ok,
        parse_catalogue_spec(open_spec(password, v)->Ok_0) == Some(es),
{
    let bytes = choose|b: Seq<u8>|
        #[trigger] created_vault_for(v, password, b) && parse_catalogue_spec(b) == Some(es);
    lemma_created_vault_round_trip(v, password, bytes);
}

/// Wrong passphrase: the same record refuses every other passphrase.
pub proof fn lemma_vault_wrong_passphrase(
    v: VaultView,
    p1: Seq<char>,
    p2: Seq<char>,
    es: Seq<EntryView>,
)
    requires
        file_matches(v, p1, es),
        p2 != p1,
    ensures
        open_spec(p2, v) == Err::<Seq<u8>, OpenFailure>(OpenFailure::WrongPassphrase),
{
    let bytes = choose|b: Seq<u8>|
        #[trigger] created_vault_for(v, p1, b) && parse_catalogue_spec(b) == Some(es);
    lemma_created_vault_wrong_passphrase(v, p1, p2, bytes);
}

/// Rotation correctness: after a successful passphrase change — which
/// leaves a record matching the new passphrase around the unchanged
/// catalogue — unlocking with the old passphrase fails with
/// WrongPassphrase, and unlocking with the new one succeeds and yields
/// the identical catalogue.
pub proof fn lemma_rotation(
    v_new: VaultView,
    old_pass: Seq<char>,
    new_pass: Seq<char>,
    es: Seq<EntryView>,
)
    requires
        file_matches(v_new, new_pass, es),
        old_pass != new_pass,
    ensures
        open_spec(old_pass, v_new) == Err::<Seq<u8>, OpenFailure>(OpenFailure::WrongPassphrase),
        open_spec(new_pass, v_new) is Ok,
        parse_catalogue_spec(open_spec(new_pass, v_new)->Ok_0) == Some(es),
{
    lemma_vault_round_trip(v_new, new_pass, es);
    lemma_vault_wrong_passphrase(v_new, new_pass, old_pass, es);
}

} // verus!
