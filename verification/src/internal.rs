//! Owner-index maintenance, the transfer protocol, and usage-rights grants.
use vstd::prelude::*;

use crate::errors::ContractError;
use crate::event::{is_transfer_event, opt_view, EventLog, EventLogVariant, NftTransferLog};
use crate::kvmap::{kv_get, kv_insert, kv_map_of, kv_remove, kv_unique};
use crate::storage::{index_bytes, index_entry_bytes, lemma_index_bytes_remove, strings_bytes};
use crate::token::{copy_pairs, copy_strings, copy_token, token_match, token_wf, Token};
use crate::tokenset::{ts_insert, ts_remove, ts_set_of, ts_unique};
use crate::{Contract, TokenId};

verus! {

/// Whether `sender` may move the token: the owner always may; an approved
/// delegate may, provided any supplied approval id equals the stored one.
pub open spec fn transfer_authorized(tok: Token, sender: Seq<char>, approval_id: Option<u64>) -> bool {
    ||| sender == tok.owner_id@
    ||| (kv_map_of(tok.approved_account_ids@).contains_key(sender) && match approval_id {
        Option::None => true,
        Option::Some(id) => kv_map_of(tok.approved_account_ids@)[sender] == id,
    })
}

/// The reason a transfer is rejected, or `None` when it must succeed.
/// Checks apply in this order: the token must exist; a non-owner sender must
/// hold an approval, whose stored id must equal any supplied one; and the
/// receiver must differ from the current owner.
pub open spec fn transfer_error(
    tokens: Map<Seq<char>, Token>,
    sender: Seq<char>,
    receiver: Seq<char>,
    token: Seq<char>,
    approval_id: Option<u64>,
) -> Option<ContractError> {
    if !tokens.contains_key(token) {
        Some(ContractError::NotFound)
    } else {
        let tok = tokens[token];
        if sender != tok.owner_id@ && !kv_map_of(tok.approved_account_ids@).contains_key(sender) {
            Some(ContractError::Unauthorized)
        } else if sender != tok.owner_id@ && (match approval_id {
            Option::Some(id) => kv_map_of(tok.approved_account_ids@)[sender] != id,
            Option::None => false,
        }) {
            Some(ContractError::ApprovalMismatch)
        } else if receiver == tok.owner_id@ {
            Some(ContractError::SelfTransfer)
        } else {
            None
        }
    }
}

/// The reason a usage grant is rejected, or `None` when it must succeed:
/// the token must exist, `admin` must be its owner or an approved delegate,
/// and `user` must differ from the owner.
pub open spec fn grant_error(
    tokens: Map<Seq<char>, Token>,
    admin: Seq<char>,
    user: Seq<char>,
    token: Seq<char>,
) -> Option<ContractError> {
    if !tokens.contains_key(token) {
        Some(ContractError::NotFound)
    } else {
        let tok = tokens[token];
        if admin != tok.owner_id@ && !kv_map_of(tok.approved_account_ids@).contains_key(admin) {
            Some(ContractError::Unauthorized)
        } else if user == tok.owner_id@ {
            Some(ContractError::SelfTransfer)
        } else {
            None
        }
    }
}

impl Contract {
    /// Insert `token_id` into `account_id`'s token set, creating the index
    /// entry if the account owned nothing before.
    pub fn internal_add_token_to_owner(&mut self, token_id: &TokenId, account_id: &String)
        requires
            old(self).index_wf(),
        ensures
            final(self).index_wf(),
            final(self).tokens_by_id == old(self).tokens_by_id,
            final(self).token_metadata_by_id == old(self).token_metadata_by_id,
            final(self).owner_id == old(self).owner_id,
            final(self).metadata == old(self).metadata,
            final(self).events == old(self).events,
            forall|a: Seq<char>, t: Seq<char>|
                final(self).index_has(a, t) <==> (old(self).index_has(a, t) || (a == account_id@
                    && t == token_id@)),
            final(self).index_map().dom() == old(self).index_map().dom().insert(account_id@),
            !old(self).index_has(account_id@, token_id@) ==> index_bytes(
                final(self).tokens_per_owner@,
            ) == index_bytes(old(self).tokens_per_owner@) + token_id@.len() + (if old(
                self,
            ).index_map().contains_key(account_id@) {
                0nat
            } else {
                account_id@.len()
            }),
    {
        let ghost m0 = self.index_map();
        let ghost s0 = self.tokens_per_owner@;
        let removed = kv_remove(&mut self.tokens_per_owner, account_id);
        let ghost s1 = self.tokens_per_owner@;
        let ghost had_entry = m0.contains_key(account_id@);
        let mut set = match removed {
            Some(s) => s,
            None => Vec::new(),
        };
        let ghost set0 = set@;
        proof {
            if had_entry {
                assert(set0 == m0[account_id@]@);
            } else {
                assert(set0 =~= Seq::<String>::empty());
            }
        }
        ts_insert(&mut set, token_id.clone());
        let ghost set1 = set@;
        kv_insert(&mut self.tokens_per_owner, account_id.clone(), set);
        proof {
            let m2 = self.index_map();
            assert(m2 =~= m0.insert(account_id@, m2[account_id@]));
            assert(m2[account_id@]@ == set1);
            assert(ts_set_of(set1) == ts_set_of(set0).insert(token_id@));
            assert forall|a: Seq<char>, t: Seq<char>|
                self.index_has(a, t) <==> (old(self).index_has(a, t) || (a == account_id@ && t
                    == token_id@)) by {
                if a == account_id@ {
                    assert(self.index_has(a, t) == ts_set_of(set1).contains(t));
                    if !had_entry {
                        assert(!old(self).index_has(a, t));
                        if ts_set_of(set0).contains(t) {
                            let j = choose|j: int| 0 <= j < set0.len() && set0[j]@ == t;
                        }
                    }
                } else {
                    assert(self.index_has(a, t) == old(self).index_has(a, t));
                }
            }
            assert forall|a: Seq<char>| #[trigger]
                m2.contains_key(a) implies ts_unique(m2[a]@) && m2[a]@.len() > 0 by {
                if a != account_id@ {
                    assert(m0.contains_key(a));
                }
            }
            assert(m2.dom() =~= m0.dom().insert(account_id@));
            if !old(self).index_has(account_id@, token_id@) {
                let s2 = self.tokens_per_owner@;
                // The token was fresh in the set, so it was appended.
                assert(!ts_set_of(set0).contains(token_id@));
                assert(set1 == set0.push(set1.last()));
                assert(set1.last()@ == token_id@);
                assert(strings_bytes(set1) == strings_bytes(set0) + token_id@.len()) by {
                    assert(set1.drop_last() =~= set0);
                }
                // The rewritten entry costs its account id plus its set.
                assert(s2 == s1.push(s2.last()));
                assert(s2.last().0@ == account_id@);
                assert(s2.last().1@ == set1);
                assert(index_bytes(s2) == index_bytes(s1) + index_entry_bytes(s2.last())) by {
                    assert(s2.drop_last() =~= s1);
                }
                if had_entry {
                    let i = choose|i: int|
                        0 <= i < s0.len() && s0[i].0@ == account_id@ && s0[i].1
                            == m0[account_id@] && s1 == s0.remove(i);
                    lemma_index_bytes_remove(s0, i);
                    assert(strings_bytes(s0[i].1@) == strings_bytes(set0));
                } else {
                    assert(s1 == s0);
                    assert(strings_bytes(set0) == 0);
                }
            }
        }
    }

    /// Remove `token_id` from `account_id`'s token set. Fails `NotFound` if
    /// the account has no index entry; deletes the entry entirely when its
    /// set becomes empty, so that no empty set persists.
    pub fn internal_remove_token_from_owner(
        &mut self,
        token_id: &TokenId,
        account_id: &String,
    ) -> (r: Result<(), ContractError>)
        requires
            old(self).index_wf(),
        ensures
            final(self).index_wf(),
            final(self).tokens_by_id == old(self).tokens_by_id,
            final(self).token_metadata_by_id == old(self).token_metadata_by_id,
            final(self).owner_id == old(self).owner_id,
            final(self).metadata == old(self).metadata,
            final(self).events == old(self).events,
            match r {
                Ok(_) => {
                    &&& old(self).index_map().contains_key(account_id@)
                    &&& forall|a: Seq<char>, t: Seq<char>|
                        final(self).index_has(a, t) <==> (old(self).index_has(a, t) && !(a
                            == account_id@ && t == token_id@))
                    &&& (final(self).index_map().contains_key(account_id@) <==> !(old(
                        self,
                    ).index_map()[account_id@]@.len() == 1 && old(self).index_has(
                        account_id@,
                        token_id@,
                    )))
                    &&& final(self).index_map().dom() == (if old(
                        self,
                    ).index_map()[account_id@]@.len() == 1 && old(self).index_has(
                        account_id@,
                        token_id@,
                    ) {
                        old(self).index_map().dom().remove(account_id@)
                    } else {
                        old(self).index_map().dom()
                    })
                },
                Err(e) => {
                    &&& e == ContractError::NotFound
                    &&& !old(self).index_map().contains_key(account_id@)
                    &&& final(self).tokens_per_owner@ == old(self).tokens_per_owner@
                },
            },
    {
        let ghost m0 = self.index_map();
        let removed = kv_remove(&mut self.tokens_per_owner, account_id);
        match removed {
            None => Err(ContractError::NotFound),
            Some(mut set) => {
                let ghost set0 = set@;
                let present = ts_remove(&mut set, token_id);
                let ghost set1 = set@;
                if set.len() > 0 {
                    kv_insert(&mut self.tokens_per_owner, account_id.clone(), set);
                    proof {
                        let m2 = self.index_map();
                        assert(m2 =~= m0.insert(account_id@, m2[account_id@]));
                        assert(m2[account_id@]@ == set1);
                        assert(ts_set_of(set1) == ts_set_of(set0).remove(token_id@));
                        assert forall|a: Seq<char>, t: Seq<char>|
                            self.index_has(a, t) <==> (old(self).index_has(a, t) && !(a
                                == account_id@ && t == token_id@)) by {
                            if a == account_id@ {
                                assert(self.index_has(a, t) == ts_set_of(set1).contains(t));
                                assert(old(self).index_has(a, t) == ts_set_of(set0).contains(t));
                            } else {
                                assert(self.index_has(a, t) == old(self).index_has(a, t));
                            }
                        }
                        assert forall|a: Seq<char>| #[trigger]
                            m2.contains_key(a) implies ts_unique(m2[a]@) && m2[a]@.len() > 0 by {
                            if a != account_id@ {
                                assert(m0.contains_key(a));
                            }
                        }
                        if present {
                            assert(set1.len() + 1 == set0.len());
                        }
                        assert(!(m0[account_id@]@.len() == 1 && old(self).index_has(
                            account_id@,
                            token_id@,
                        )));
                        assert(m2.dom() =~= m0.dom());
                    }
                    Ok(())
                } else {
                    proof {
                        let m2 = self.index_map();
                        assert(m2 == m0.remove(account_id@));
                        assert(ts_set_of(set1) == ts_set_of(set0).remove(token_id@));
                        assert(present) by {
                            if !present {
                                assert(set1 == set0);
                                assert(set0.len() > 0);
                            }
                        }
                        assert(set0.len() == 1);
                        assert(old(self).index_has(account_id@, token_id@)) by {
                            assert(ts_set_of(set0).contains(token_id@));
                        }
                        assert(set0[0]@ == token_id@) by {
                            let j0 = choose|j: int| 0 <= j < set0.len() && set0[j]@ == token_id@;
                            assert(j0 == 0);
                        }
                        assert forall|a: Seq<char>, t: Seq<char>|
                            self.index_has(a, t) <==> (old(self).index_has(a, t) && !(a
                                == account_id@ && t == token_id@)) by {
                            if a == account_id@ {
                                assert(!self.index_has(a, t));
                                if old(self).index_has(a, t) && t != token_id@ {
                                    let j = choose|j: int| 0 <= j < set0.len() && set0[j]@ == t;
                                    assert(j == 0);
                                    assert(false);
                                }
                            } else {
                                assert(self.index_has(a, t) == old(self).index_has(a, t));
                            }
                        }
                        assert forall|a: Seq<char>| #[trigger]
                            m2.contains_key(a) implies ts_unique(m2[a]@) && m2[a]@.len() > 0 by {
                            assert(m0.contains_key(a));
                        }
                    }
                    Ok(())
                }
            },
        }
    }

    /// Move a token to `receiver_id` on behalf of `sender_id`, enforcing the
    /// authorization rules of [`transfer_error`]. On success the replacement
    /// record has the receiver as owner, an empty approval map, and the old
    /// approval counter, royalty map and usage grants carried over; exactly
    /// one transfer event is appended; and the pre-transfer snapshot of the
    /// record is returned. On failure the ledger is exactly as it was.
    pub fn internal_transfer(
        &mut self,
        sender_id: &String,
        receiver_id: &String,
        token_id: &TokenId,
        approval_id: Option<u64>,
        memo: Option<String>,
    ) -> (r: Result<Token, ContractError>)
        requires
            old(self).wf(),
        ensures
            final(self).wf(),
            final(self).owner_id == old(self).owner_id,
            final(self).metadata == old(self).metadata,
            final(self).token_metadata_by_id == old(self).token_metadata_by_id,
            match r {
                Ok(prev) => {
                    let tok = old(self).tokens()[token_id@];
                    let newtok = final(self).tokens()[token_id@];
                    &&& transfer_error(
                        old(self).tokens(),
                        sender_id@,
                        receiver_id@,
                        token_id@,
                        approval_id,
                    ) is None
                    &&& token_match(prev, tok)
                    &&& final(self).tokens().contains_key(token_id@)
                    &&& newtok.owner_id@ == receiver_id@
                    &&& newtok.approved_account_ids@.len() == 0
                    &&& newtok.next_approval_id == tok.next_approval_id
                    &&& newtok.royalty@ == tok.royalty@
                    &&& newtok.users@ == tok.users@
                    &&& final(self).tokens() == old(self).tokens().insert(token_id@, newtok)
                    &&& forall|a: Seq<char>, t: Seq<char>|
                        final(self).index_has(a, t) <==> ((old(self).index_has(a, t) && !(a
                            == tok.owner_id@ && t == token_id@)) || (a == receiver_id@ && t
                            == token_id@))
                    &&& final(self).events@.len() == old(self).events@.len() + 1
                    &&& forall|i: int|
                        0 <= i < old(self).events@.len() ==> final(self).events@[i] == old(
                            self,
                        ).events@[i]
                    &&& is_transfer_event(
                        final(self).events@.last(),
                        if approval_id is Some {
                            Some(sender_id@)
                        } else {
                            None
                        },
                        tok.owner_id@,
                        receiver_id@,
                        token_id@,
                        opt_view(memo),
                    )
                },
                Err(e) => {
                    &&& *final(self) == *old(self)
                    &&& transfer_error(
                        old(self).tokens(),
                        sender_id@,
                        receiver_id@,
                        token_id@,
                        approval_id,
                    ) == Some(e)
                },
            },
    {
        let old_token = match kv_get(&self.tokens_by_id, token_id) {
            None => {
                return Err(ContractError::NotFound);
            },
            Some(t) => copy_token(t),
        };
        let ghost tok = old(self).tokens()[token_id@];
        proof {
            assert(old(self).tokens().contains_key(token_id@));
            assert(token_wf(tok));
        }
        if !(*sender_id == old_token.owner_id) {
            match kv_get(&old_token.approved_account_ids, sender_id) {
                None => {
                    return Err(ContractError::Unauthorized);
                },
                Some(stored) => {
                    if let Some(enforced) = approval_id {
                        if *stored != enforced {
                            return Err(ContractError::ApprovalMismatch);
                        }
                    }
                },
            }
        }
        if *receiver_id == old_token.owner_id {
            return Err(ContractError::SelfTransfer);
        }
        proof {
            assert(old(self).index_has(tok.owner_id@, token_id@));
        }
        let removed = self.internal_remove_token_from_owner(token_id, &old_token.owner_id);
        proof {
            assert(removed is Ok);
        }
        self.internal_add_token_to_owner(token_id, receiver_id);
        let ghost mid = *self;
        let new_token = Token {
            owner_id: receiver_id.clone(),
            approved_account_ids: Vec::new(),
            next_approval_id: old_token.next_approval_id,
            royalty: copy_pairs(&old_token.royalty),
            users: copy_strings(&old_token.users),
        };
        kv_insert(&mut self.tokens_by_id, token_id.clone(), new_token);
        let ghost committed = *self;
        let authorized_id = if approval_id.is_some() {
            Some(sender_id.clone())
        } else {
            None
        };
        let mut token_ids: Vec<String> = Vec::new();
        token_ids.push(token_id.clone());
        let mut logs: Vec<NftTransferLog> = Vec::new();
        logs.push(
            NftTransferLog {
                authorized_id,
                old_owner_id: old_token.owner_id.clone(),
                new_owner_id: receiver_id.clone(),
                token_ids,
                memo,
            },
        );
        self.events.push(
            EventLog {
                standard: String::from_str("nep171"),
                version: String::from_str("1.0.0"),
                event: EventLogVariant::NftTransfer(logs),
            },
        );
        proof {
            let t0 = old(self).tokens();
            let t2 = self.tokens();
            let newtok = t2[token_id@];
            assert(t2 == mid.tokens().insert(token_id@, newtok));
            assert(mid.tokens() == t0);
            assert(t2 =~= t0.insert(token_id@, newtok));
            assert(newtok.owner_id@ == receiver_id@);
            assert(newtok.royalty@ == tok.royalty@);
            assert(newtok.users@ == tok.users@);
            assert(kv_map_of(newtok.approved_account_ids@) =~= Map::<Seq<char>, u64>::empty());
            // The replacement record is well-formed, and every other record
            // is carried over unchanged.
            assert forall|t: Seq<char>| #[trigger]
                t2.contains_key(t) implies token_wf(t2[t]) by {
                if t == token_id@ {
                    assert(token_wf(tok));
                } else {
                    assert(t0.contains_key(t));
                    assert(t2[t] == t0[t]);
                }
            }
            // The metadata store is untouched and keyed exactly like the
            // token store.
            assert(self.token_meta() == old(self).token_meta());
            assert forall|t: Seq<char>|
                #[trigger] t2.contains_key(t) <==> #[trigger] self.token_meta().contains_key(
                    t,
                ) by {
                if t != token_id@ {
                    assert(t2.contains_key(t) == t0.contains_key(t));
                }
                assert(t0.contains_key(t) <==> old(self).token_meta().contains_key(t));
            }
            // The owner index is again the exact inverse of the owner fields.
            assert forall|a: Seq<char>, t: Seq<char>| #[trigger]
                self.index_has(a, t) <==> (t2.contains_key(t) && t2[t].owner_id@ == a) by {
                assert(self.index_has(a, t) == mid.index_has(a, t));
                assert(old(self).index_has(a, t) <==> (t0.contains_key(t) && t0[t].owner_id@
                    == a));
                if t == token_id@ {
                    assert(old(self).index_has(a, t) <==> a == tok.owner_id@);
                    assert(t2[t].owner_id@ == receiver_id@);
                } else {
                    assert(t2.contains_key(t) == t0.contains_key(t));
                    if t0.contains_key(t) {
                        assert(t2[t] == t0[t]);
                    }
                }
            }
            assert(self.index_has(receiver_id@, token_id@));
        }
        Ok(old_token)
    }

    /// Grant `user_id` a non-transferable usage permission over the token,
    /// on behalf of `admin_id` (the owner or an approved delegate). Returns
    /// the updated record. No lifecycle event is emitted, and the marginal
    /// storage footprint of the grant is deliberately not charged here:
    /// callers that need cost-neutrality wrap the call in their own storage
    /// accounting, using [`crate::storage::usage_grant_bytes`].
    pub fn internal_add_users(
        &mut self,
        admin_id: String,
        user_id: String,
        token_id: &TokenId,
    ) -> (r: Result<Token, ContractError>)
        requires
            old(self).wf(),
        ensures
            final(self).wf(),
            final(self).owner_id == old(self).owner_id,
            final(self).metadata == old(self).metadata,
            final(self).token_metadata_by_id == old(self).token_metadata_by_id,
            final(self).tokens_per_owner == old(self).tokens_per_owner,
            final(self).events == old(self).events,
            match r {
                Ok(updated) => {
                    let tok = old(self).tokens()[token_id@];
                    let newtok = final(self).tokens()[token_id@];
                    &&& grant_error(old(self).tokens(), admin_id@, user_id@, token_id@) is None
                    &&& final(self).tokens().contains_key(token_id@)
                    &&& newtok.owner_id@ == tok.owner_id@
                    &&& newtok.approved_account_ids@ == tok.approved_account_ids@
                    &&& newtok.next_approval_id == tok.next_approval_id
                    &&& newtok.royalty@ == tok.royalty@
                    &&& ts_set_of(newtok.users@) == ts_set_of(tok.users@).insert(user_id@)
                    &&& final(self).tokens() == old(self).tokens().insert(token_id@, newtok)
                    &&& token_match(updated, newtok)
                },
                Err(e) => {
                    &&& *final(self) == *old(self)
                    &&& grant_error(old(self).tokens(), admin_id@, user_id@, token_id@) == Some(e)
                },
            },
    {
        let mut token = match kv_get(&self.tokens_by_id, token_id) {
            None => {
                return Err(ContractError::NotFound);
            },
            Some(t) => copy_token(t),
        };
        let ghost tok = old(self).tokens()[token_id@];
        proof {
            assert(old(self).tokens().contains_key(token_id@));
            assert(token_wf(tok));
        }
        if !(admin_id == token.owner_id) {
            match kv_get(&token.approved_account_ids, &admin_id) {
                None => {
                    return Err(ContractError::Unauthorized);
                },
                Some(_) => {},
            }
        }
        if user_id == token.owner_id {
            return Err(ContractError::SelfTransfer);
        }
        ts_insert(&mut token.users, user_id);
        let updated = copy_token(&token);
        kv_insert(&mut self.tokens_by_id, token_id.clone(), token);
        proof {
            let t0 = old(self).tokens();
            let t2 = self.tokens();
            let newtok = t2[token_id@];
            assert(t2 =~= t0.insert(token_id@, newtok));
            assert forall|t: Seq<char>| #[trigger]
                t2.contains_key(t) implies token_wf(t2[t]) by {
                if t == token_id@ {
                    assert(token_wf(tok));
                } else {
                    assert(t0.contains_key(t));
                    assert(t2[t] == t0[t]);
                }
            }
            assert forall|t: Seq<char>|
                #[trigger] t2.contains_key(t) <==> #[trigger] self.token_meta().contains_key(
                    t,
                ) by {
                if t != token_id@ {
                    assert(t2.contains_key(t) == t0.contains_key(t));
                }
                assert(t0.contains_key(t) <==> old(self).token_meta().contains_key(t));
            }
            assert forall|a: Seq<char>, t: Seq<char>| #[trigger]
                self.index_has(a, t) <==> (t2.contains_key(t) && t2[t].owner_id@ == a) by {
                assert(self.index_has(a, t) == old(self).index_has(a, t));
                assert(old(self).index_has(a, t) <==> (t0.contains_key(t) && t0[t].owner_id@
                    == a));
                if t == token_id@ {
                    assert(t2[t].owner_id@ == tok.owner_id@);
                } else {
                    assert(t2.contains_key(t) == t0.contains_key(t));
                    if t0.contains_key(t) {
                        assert(t2[t] == t0[t]);
                    }
                }
            }
        }
        Ok(updated)
    }
}

} // verus!
