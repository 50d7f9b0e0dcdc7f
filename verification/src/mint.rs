//! The mint protocol and the read accessor for a token's full view.
use vstd::prelude::*;

use crate::errors::ContractError;
use crate::event::{is_mint_event, EventLog, EventLogVariant, NftMintLog};
use crate::kvmap::{kv_find, kv_get, kv_insert, kv_map_of, kv_unique, lemma_kv_contains};
use crate::metadata::{copy_metadata, TokenMetadata};
use crate::storage::{
    approvals_bytes, contract_footprint, index_bytes, meta_store_bytes, metadata_bytes,
    metadata_units, royalty_bytes, royalty_units, str_units, strings_bytes, token_bytes,
    token_store_bytes, WIDTH_U64,
};
use crate::token::{copy_token, token_wf, JsonToken, Token, MAX_ROYALTIES};
use crate::{Contract, TokenId};

verus! {

/// The royalty entries a mint call supplies, as a sequence; absent means
/// none.
pub open spec fn royalties_view(o: Option<Vec<(String, u32)>>) -> Seq<(String, u32)> {
    match o {
        Some(v) => v@,
        None => Seq::<(String, u32)>::empty(),
    }
}

/// The storage units a mint must pay for: the new token record and the new
/// metadata record, each keyed by the token id, plus the owner-index growth
/// (the token id, and the receiver's account id too when a fresh index entry
/// is created for it).
pub open spec fn mint_bytes(
    c: Contract,
    token_id: Seq<char>,
    md: TokenMetadata,
    receiver: Seq<char>,
    royalties: Seq<(String, u32)>,
) -> nat {
    (token_id.len() + receiver.len() + WIDTH_U64 + royalty_bytes(royalties) + token_id.len()
        + metadata_bytes(md) + token_id.len() + (if c.index_map().contains_key(receiver) {
        0nat
    } else {
        receiver.len()
    })) as nat
}

/// The reason a mint is rejected, or `None` when it must succeed. Checks
/// apply in this order: the supplied royalty map must fit the record's
/// bound; the token id must be fresh; and the attached deposit must cover
/// the storage cost at the injected price per unit.
pub open spec fn mint_error(
    c: Contract,
    token_id: Seq<char>,
    md: TokenMetadata,
    receiver: Seq<char>,
    royalties: Option<Seq<(String, u32)>>,
    deposit: nat,
    byte_cost: nat,
) -> Option<ContractError> {
    if (match royalties {
        Some(r) => r.len() > MAX_ROYALTIES,
        None => false,
    }) {
        Some(ContractError::TooManyRoyalties)
    } else if c.tokens().contains_key(token_id) {
        Some(ContractError::AlreadyExists)
    } else if deposit < mint_bytes(
        c,
        token_id,
        md,
        receiver,
        match royalties {
            Some(r) => r,
            None => Seq::<(String, u32)>::empty(),
        },
    ) * byte_cost {
        Some(ContractError::InsufficientDeposit)
    } else {
        None
    }
}

impl Contract {
    /// Mint a new token for `receiver_id`: create its record (owner =
    /// receiver, no approvals, approval counter zero, the supplied royalty
    /// map, no usage grants), store its metadata under the same id, index it
    /// under the receiver, and append exactly one mint event — all of it only
    /// after every check has passed, so a rejected call leaves the ledger
    /// exactly as it found it. The attached deposit must cover the storage
    /// growth at `storage_byte_cost` units; the surplus is returned as the
    /// refund.
    pub fn nft_mint(
        &mut self,
        token_id: TokenId,
        metadata: TokenMetadata,
        receiver_id: String,
        perpetual_royalties: Option<Vec<(String, u32)>>,
        attached_deposit: u128,
        storage_byte_cost: u128,
    ) -> (r: Result<u128, ContractError>)
        requires
            old(self).wf(),
            kv_unique(royalties_view(perpetual_royalties)),
        ensures
            final(self).wf(),
            final(self).owner_id == old(self).owner_id,
            final(self).metadata == old(self).metadata,
            match r {
                Ok(refund) => {
                    let newtok = final(self).tokens()[token_id@];
                    &&& mint_error(
                        *old(self),
                        token_id@,
                        metadata,
                        receiver_id@,
                        match perpetual_royalties {
                            Some(v) => Some(v@),
                            None => None,
                        },
                        attached_deposit as nat,
                        storage_byte_cost as nat,
                    ) is None
                    &&& final(self).tokens().contains_key(token_id@)
                    &&& newtok.owner_id@ == receiver_id@
                    &&& newtok.approved_account_ids@.len() == 0
                    &&& newtok.next_approval_id == 0
                    &&& newtok.royalty@ == royalties_view(perpetual_royalties)
                    &&& newtok.users@.len() == 0
                    &&& final(self).tokens() == old(self).tokens().insert(token_id@, newtok)
                    &&& final(self).token_meta() == old(self).token_meta().insert(
                        token_id@,
                        metadata,
                    )
                    &&& forall|a: Seq<char>, t: Seq<char>|
                        final(self).index_has(a, t) <==> (old(self).index_has(a, t) || (a
                            == receiver_id@ && t == token_id@))
                    &&& final(self).events@.len() == old(self).events@.len() + 1
                    &&& forall|i: int|
                        0 <= i < old(self).events@.len() ==> final(self).events@[i] == old(
                            self,
                        ).events@[i]
                    &&& is_mint_event(final(self).events@.last(), receiver_id@, token_id@)
                    &&& attached_deposit == mint_bytes(
                        *old(self),
                        token_id@,
                        metadata,
                        receiver_id@,
                        royalties_view(perpetual_royalties),
                    ) * storage_byte_cost + refund
                    &&& contract_footprint(*final(self)) == contract_footprint(*old(self))
                        + mint_bytes(
                        *old(self),
                        token_id@,
                        metadata,
                        receiver_id@,
                        royalties_view(perpetual_royalties),
                    )
                },
                Err(e) => {
                    &&& *final(self) == *old(self)
                    &&& mint_error(
                        *old(self),
                        token_id@,
                        metadata,
                        receiver_id@,
                        match perpetual_royalties {
                            Some(v) => Some(v@),
                            None => None,
                        },
                        attached_deposit as nat,
                        storage_byte_cost as nat,
                    ) == Some(e)
                },
            },
    {
        let royalty: Vec<(String, u32)> = match perpetual_royalties {
            Some(r) => {
                if r.len() > MAX_ROYALTIES {
                    return Err(ContractError::TooManyRoyalties);
                }
                r
            },
            None => Vec::new(),
        };
        match kv_get(&self.tokens_by_id, &token_id) {
            Some(_) => {
                return Err(ContractError::AlreadyExists);
            },
            None => {},
        }
        // Measure the storage growth this mint will cause, before mutating
        // anything.
        let id_units = str_units(&token_id);
        let receiver_units = str_units(&receiver_id);
        let roy_units = royalty_units(&royalty);
        let md_units = metadata_units(&metadata);
        let had_entry = match kv_find(&self.tokens_per_owner, &receiver_id) {
            Some(_) => true,
            None => false,
        };
        proof {
            lemma_kv_contains(self.tokens_per_owner@, receiver_id@);
            assert(had_entry == self.index_map().contains_key(receiver_id@));
        }
        let units: u128 = id_units + receiver_units + (WIDTH_U64 as u128) + roy_units + id_units
            + md_units + id_units + (if had_entry {
            0
        } else {
            receiver_units
        });
        let ghost needed = mint_bytes(
            *old(self),
            token_id@,
            metadata,
            receiver_id@,
            royalty@,
        );
        proof {
            assert(units == needed);
        }
        let refund = match units.checked_mul(storage_byte_cost) {
            None => {
                proof {
                    assert(needed * storage_byte_cost > u128::MAX >= attached_deposit);
                }
                return Err(ContractError::InsufficientDeposit);
            },
            Some(cost) => {
                if attached_deposit < cost {
                    return Err(ContractError::InsufficientDeposit);
                }
                attached_deposit - cost
            },
        };
        // Every check has passed; commit the mutation.
        let token = Token {
            owner_id: receiver_id.clone(),
            approved_account_ids: Vec::new(),
            next_approval_id: 0,
            royalty,
            users: Vec::new(),
        };
        proof {
            assert(token.royalty@ == royalties_view(perpetual_royalties));
            assert(token_bytes(token) == (receiver_id@.len() + WIDTH_U64 + royalty_bytes(
                token.royalty@,
            )) as nat) by {
                assert(approvals_bytes(token.approved_account_ids@) == 0);
                assert(strings_bytes(token.users@) == 0);
            }
        }
        let ghost tb0 = self.tokens_by_id@;
        kv_insert(&mut self.tokens_by_id, token_id.clone(), token);
        let ghost tb1 = self.tokens_by_id@;
        proof {
            assert(tb1 == tb0.push(tb1.last()));
            assert(token_store_bytes(tb1) == token_store_bytes(tb0) + tb1.last().0@.len()
                + token_bytes(tb1.last().1)) by {
                assert(tb1.drop_last() =~= tb0);
            }
            assert(tb1.last().0@ == token_id@);
            assert(token_bytes(tb1.last().1) == token_bytes(token));
            assert(!old(self).token_meta().contains_key(token_id@));
        }
        let ghost mb0 = self.token_metadata_by_id@;
        kv_insert(&mut self.token_metadata_by_id, token_id.clone(), metadata);
        let ghost mb1 = self.token_metadata_by_id@;
        proof {
            assert(mb1 == mb0.push(mb1.last()));
            assert(meta_store_bytes(mb1) == meta_store_bytes(mb0) + mb1.last().0@.len()
                + metadata_bytes(mb1.last().1)) by {
                assert(mb1.drop_last() =~= mb0);
            }
            assert(mb1.last().0@ == token_id@);
            assert(mb1.last().1 == metadata);
        }
        let ghost pre_add = *self;
        proof {
            assert(!pre_add.index_has(receiver_id@, token_id@)) by {
                assert(pre_add.index_map() == old(self).index_map());
                assert(!old(self).index_has(receiver_id@, token_id@));
            }
        }
        self.internal_add_token_to_owner(&token_id, &receiver_id);
        let ghost post_add = *self;
        let mut token_ids: Vec<String> = Vec::new();
        token_ids.push(token_id.clone());
        let mut logs: Vec<NftMintLog> = Vec::new();
        logs.push(NftMintLog { owner_id: receiver_id.clone(), token_ids, memo: None });
        self.events.push(
            EventLog {
                standard: String::from_str("nep171"),
                version: String::from_str("1.0.0"),
                event: EventLogVariant::NftMint(logs),
            },
        );
        proof {
            let t0 = old(self).tokens();
            let t2 = self.tokens();
            let newtok = t2[token_id@];
            assert(t2 =~= t0.insert(token_id@, newtok));
            assert(self.token_meta() =~= old(self).token_meta().insert(token_id@, metadata));
            assert(kv_map_of(newtok.approved_account_ids@) =~= Map::<Seq<char>, u64>::empty());
            assert forall|t: Seq<char>| #[trigger]
                t2.contains_key(t) implies token_wf(t2[t]) by {
                if t != token_id@ {
                    assert(t0.contains_key(t));
                    assert(t2[t] == t0[t]);
                }
            }
            assert forall|t: Seq<char>|
                #[trigger] t2.contains_key(t) <==> #[trigger] self.token_meta().contains_key(
                    t,
                ) by {
                if t != token_id@ {
                    assert(t2.contains_key(t) == t0.contains_key(t));
                    assert(t0.contains_key(t) <==> old(self).token_meta().contains_key(t));
                }
            }
            assert forall|a: Seq<char>, t: Seq<char>| #[trigger]
                self.index_has(a, t) <==> (t2.contains_key(t) && t2[t].owner_id@ == a) by {
                assert(self.index_has(a, t) == post_add.index_has(a, t));
                assert(post_add.index_has(a, t) <==> (pre_add.index_has(a, t) || (a
                    == receiver_id@ && t == token_id@)));
                assert(pre_add.index_has(a, t) == old(self).index_has(a, t));
                assert(old(self).index_has(a, t) <==> (t0.contains_key(t) && t0[t].owner_id@
                    == a));
                if t == token_id@ {
                    assert(!t0.contains_key(t));
                    assert(!old(self).index_has(a, t));
                    assert(t2[t].owner_id@ == receiver_id@);
                } else {
                    assert(t2.contains_key(t) == t0.contains_key(t));
                    if t0.contains_key(t) {
                        assert(t2[t] == t0[t]);
                    }
                }
            }
            // The charge is exactly the growth of the persisted footprint.
            assert(index_bytes(post_add.tokens_per_owner@) == index_bytes(
                pre_add.tokens_per_owner@,
            ) + token_id@.len() + (if pre_add.index_map().contains_key(receiver_id@) {
                0nat
            } else {
                receiver_id@.len()
            }));
            assert(pre_add.index_map().contains_key(receiver_id@) == had_entry);
            assert(self.tokens_per_owner@ == post_add.tokens_per_owner@);
            assert(contract_footprint(*self) == contract_footprint(*old(self)) + needed);
        }
        Ok(refund)
    }

    /// Read a token's full view: owner, metadata, approvals, royalty shares
    /// and usage grants. A pure lookup with no authorization check; absent
    /// ids give `None`.
    pub fn nft_token(&self, token_id: TokenId) -> (r: Option<JsonToken>)
        requires
            self.wf(),
        ensures
            match r {
                None => !self.tokens().contains_key(token_id@),
                Some(jt) => {
                    let tok = self.tokens()[token_id@];
                    &&& self.tokens().contains_key(token_id@)
                    &&& jt.token_id@ == token_id@
                    &&& jt.owner_id@ == tok.owner_id@
                    &&& jt.metadata == self.token_meta()[token_id@]
                    &&& jt.approved_account_ids@ == tok.approved_account_ids@
                    &&& jt.royalty@ == tok.royalty@
                    &&& jt.users@ == tok.users@
                },
            },
    {
        match kv_get(&self.tokens_by_id, &token_id) {
            None => None,
            Some(tok) => {
                let t = copy_token(tok);
                match kv_get(&self.token_metadata_by_id, &token_id) {
                    None => {
                        proof {
                            assert(self.tokens().contains_key(token_id@));
                            assert(self.token_meta().contains_key(token_id@));
                            assert(false);
                        }
                        None
                    },
                    Some(m) => Some(
                        JsonToken {
                            owner_id: t.owner_id,
                            token_id,
                            metadata: copy_metadata(m),
                            approved_account_ids: t.approved_account_ids,
                            royalty: t.royalty,
                            users: t.users,
                        },
                    ),
                }
            },
        }
    }
}

} // verus!
