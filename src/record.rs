//! Campaign records and withdraw requests, their abstract values, and their
//! encoding in the binary layout of `codec`.

use vstd::prelude::*;
use vstd::slice::{slice_subrange, slice_to_vec};
use crate::codec::{
    append_bytes, le_bytes, lemma_le_len, lemma_text_unique, read_text, text_bytes, text_ok,
    u64_from_bytes, u64_to_bytes, write_text,
};

verus! {

/// Length in bytes of an account identity.
pub const KEY_LEN: usize = 32;

/// The abstract value of a campaign record.
pub struct CampaignView {
    pub admin: Seq<u8>,
    pub name: Seq<u8>,
    pub description: Seq<u8>,
    pub image_link: Seq<u8>,
    pub amount_donated: u64,
}

impl CampaignView {
    /// The record can be laid out: a full identity, and text fields that
    /// fit their prefix.
    pub open spec fn encodable(self) -> bool {
        &&& self.admin.len() == KEY_LEN
        &&& self.name.len() <= u32::MAX
        &&& self.description.len() <= u32::MAX
        &&& self.image_link.len() <= u32::MAX
    }

    /// The record can be laid out and read back: its text is UTF-8 too.
    pub open spec fn wf(self) -> bool {
        &&& self.encodable()
        &&& text_ok(self.name)
        &&& text_ok(self.description)
        &&& text_ok(self.image_link)
    }

    pub open spec fn with_donated(self, amount: u64) -> CampaignView {
        CampaignView { amount_donated: amount, ..self }
    }
}

/// The bytes that a campaign record is stored as.
pub open spec fn campaign_bytes(v: CampaignView) -> Seq<u8> {
    v.admin + text_bytes(v.name) + text_bytes(v.description) + text_bytes(v.image_link)
        + le_bytes(v.amount_donated as nat, 8)
}

/// The campaign record that bytes hold, if they hold one.
pub open spec fn parse_campaign(d: Seq<u8>) -> Option<CampaignView> {
    if exists|v: CampaignView| v.wf() && campaign_bytes(v) == d {
        Some(choose|v: CampaignView| v.wf() && campaign_bytes(v) == d)
    } else {
        None
    }
}

/// The persistent state of one campaign.
#[derive(Clone, Debug)]
pub struct CampaignRecord {
    pub admin: Vec<u8>,
    pub name: Vec<u8>,
    pub description: Vec<u8>,
    pub image_link: Vec<u8>,
    pub amount_donated: u64,
}

impl View for CampaignRecord {
    type V = CampaignView;

    open spec fn view(&self) -> CampaignView {
        CampaignView {
            admin: self.admin@,
            name: self.name@,
            description: self.description@,
            image_link: self.image_link@,
            amount_donated: self.amount_donated,
        }
    }
}

/// A request to move `amount` out of a campaign to its admin.
#[derive(Clone, Copy, Debug)]
pub struct WithdrawRequest {
    pub amount: u64,
}

/// The bytes that a withdraw request is sent as.
pub open spec fn withdraw_bytes(amount: u64) -> Seq<u8> {
    le_bytes(amount as nat, 8)
}

/// The amount that a withdraw request's bytes hold, if they hold one.
pub open spec fn parse_withdraw(d: Seq<u8>) -> Option<u64> {
    if exists|a: u64| withdraw_bytes(a) == d {
        Some(choose|a: u64| withdraw_bytes(a) == d)
    } else {
        None
    }
}

/// Whatever `parse_withdraw` yields is the one amount laid out as `d`.
pub proof fn lemma_parse_withdraw(d: Seq<u8>, a: u64)
    requires
        withdraw_bytes(a) == d,
    ensures
        parse_withdraw(d) == Some(a),
{
    let b = choose|b: u64| withdraw_bytes(b) == d;
    crate::codec::lemma_pow256_values();
    crate::codec::lemma_le_injective(a as nat, b as nat, 8);
}

/// Two well-formed records never share an encoding.
pub proof fn lemma_campaign_bytes_injective(v1: CampaignView, v2: CampaignView)
    requires
        v1.wf(),
        v2.wf(),
        campaign_bytes(v1) == campaign_bytes(v2),
    ensures
        v1 == v2,
{
    let d = campaign_bytes(v1);
    let k = KEY_LEN as int;
    lemma_le_len(v1.name.len(), 4);
    lemma_le_len(v2.name.len(), 4);
    lemma_le_len(v1.description.len(), 4);
    lemma_le_len(v2.description.len(), 4);
    lemma_le_len(v1.image_link.len(), 4);
    lemma_le_len(v2.image_link.len(), 4);
    lemma_le_len(v1.amount_donated as nat, 8);
    lemma_le_len(v2.amount_donated as nat, 8);
    assert(v1.admin =~= d.subrange(0, k));
    assert(v2.admin =~= d.subrange(0, k));
    let n1 = text_bytes(v1.name).len() as int;
    let n2 = text_bytes(v2.name).len() as int;
    assert(d.subrange(k, k + n1) =~= text_bytes(v1.name));
    assert(campaign_bytes(v2).subrange(k, k + n2) =~= text_bytes(v2.name));
    lemma_text_unique(d, k, v1.name, v2.name);
    let p = k + n1;
    let e1 = text_bytes(v1.description).len() as int;
    let e2 = text_bytes(v2.description).len() as int;
    assert(d.subrange(p, p + e1) =~= text_bytes(v1.description));
    assert(campaign_bytes(v2).subrange(p, p + e2) =~= text_bytes(v2.description));
    lemma_text_unique(d, p, v1.description, v2.description);
    let q = p + e1;
    let i1 = text_bytes(v1.image_link).len() as int;
    let i2 = text_bytes(v2.image_link).len() as int;
    assert(d.subrange(q, q + i1) =~= text_bytes(v1.image_link));
    assert(campaign_bytes(v2).subrange(q, q + i2) =~= text_bytes(v2.image_link));
    lemma_text_unique(d, q, v1.image_link, v2.image_link);
    let z = q + i1;
    assert(le_bytes(v1.amount_donated as nat, 8) =~= d.subrange(z, z + 8));
    assert(le_bytes(v2.amount_donated as nat, 8) =~= campaign_bytes(v2).subrange(z, z + 8));
    crate::codec::lemma_pow256_values();
    crate::codec::lemma_le_injective(v1.amount_donated as nat, v2.amount_donated as nat, 8);
}

/// Whatever `parse_campaign` yields is the one record laid out as `d`.
pub proof fn lemma_parse_campaign(d: Seq<u8>, v: CampaignView)
    requires
        v.wf(),
        campaign_bytes(v) == d,
    ensures
        parse_campaign(d) == Some(v),
{
    let w = choose|w: CampaignView| w.wf() && campaign_bytes(w) == d;
    lemma_campaign_bytes_injective(v, w);
}

impl CampaignRecord {
    /// Lays the record out as bytes.
    pub fn encode(&self) -> (r: Vec<u8>)
        requires
            self@.encodable(),
        ensures
            r@ == campaign_bytes(self@),
    {
        let mut out: Vec<u8> = Vec::new();
        append_bytes(&mut out, self.admin.as_slice());
        write_text(&mut out, self.name.as_slice());
        write_text(&mut out, self.description.as_slice());
        write_text(&mut out, self.image_link.as_slice());
        let amount = u64_to_bytes(self.amount_donated);
        append_bytes(&mut out, amount.as_slice());
        assert(out@ =~= campaign_bytes(self@));
        out
    }

    /// Reads a record from bytes; `None` when the bytes are not exactly one
    /// well-formed record.
    pub fn decode(d: &[u8]) -> (r: Option<CampaignRecord>)
        ensures
            r matches Some(c) ==> c@.wf(),
            r matches Some(c) ==> parse_campaign(d@) == Some(c@),
            r is None ==> parse_campaign(d@) is None,
    {
        if d.len() < KEY_LEN {
            assert forall|v: CampaignView| v.wf() implies campaign_bytes(v) != d@ by {
                assert(campaign_bytes(v).len() >= KEY_LEN);
            }
            return None;
        }
        let admin = slice_to_vec(slice_subrange(d, 0, KEY_LEN));
        let (name, p) = match read_text(d, KEY_LEN) {
            Some(x) => x,
            None => {
                assert forall|v: CampaignView| v.wf() implies campaign_bytes(v) != d@ by {
                    Self::prefix_facts(v, d@);
                }
                return None;
            },
        };
        let (description, q) = match read_text(d, p) {
            Some(x) => x,
            None => {
                assert forall|v: CampaignView| v.wf() implies campaign_bytes(v) != d@ by {
                    Self::prefix_facts(v, d@);
                    if campaign_bytes(v) == d@ {
                        lemma_text_unique(d@, KEY_LEN as int, v.name, name@);
                    }
                }
                return None;
            },
        };
        let (image_link, z) = match read_text(d, q) {
            Some(x) => x,
            None => {
                assert forall|v: CampaignView| v.wf() implies campaign_bytes(v) != d@ by {
                    Self::prefix_facts(v, d@);
                    if campaign_bytes(v) == d@ {
                        lemma_text_unique(d@, KEY_LEN as int, v.name, name@);
                        lemma_text_unique(d@, p as int, v.description, description@);
                    }
                }
                return None;
            },
        };
        let amount = if d.len() - z == 8 {
            u64_from_bytes(slice_subrange(d, z, d.len()))
        } else {
            None
        };
        match amount {
            Some(amount_donated) => {
                let c = CampaignRecord { admin, name, description, image_link, amount_donated };
                assert(campaign_bytes(c@) =~= d@);
                proof {
                    lemma_parse_campaign(d@, c@);
                }
                Some(c)
            },
            None => {
                assert forall|v: CampaignView| v.wf() implies campaign_bytes(v) != d@ by {
                    Self::prefix_facts(v, d@);
                    if campaign_bytes(v) == d@ {
                        lemma_text_unique(d@, KEY_LEN as int, v.name, name@);
                        lemma_text_unique(d@, p as int, v.description, description@);
                        lemma_text_unique(d@, q as int, v.image_link, image_link@);
                        assert(d@.subrange(z as int, d@.len() as int) =~= le_bytes(
                            v.amount_donated as nat,
                            8,
                        ));
                    }
                }
                None
            },
        }
    }

    /// Where the fields of a record stand in its encoding.
    proof fn prefix_facts(v: CampaignView, d: Seq<u8>)
        requires
            v.wf(),
        ensures
            campaign_bytes(v) == d ==> {
                let k = KEY_LEN as int;
                let p = k + text_bytes(v.name).len();
                let q = p + text_bytes(v.description).len();
                let z = q + text_bytes(v.image_link).len();
                &&& d.len() == z + 8
                &&& d.subrange(k, p) == text_bytes(v.name)
                &&& d.subrange(p, q) == text_bytes(v.description)
                &&& d.subrange(q, z) == text_bytes(v.image_link)
                &&& d.subrange(z, z + 8) == le_bytes(v.amount_donated as nat, 8)
            },
    {
        lemma_le_len(v.name.len(), 4);
        lemma_le_len(v.description.len(), 4);
        lemma_le_len(v.image_link.len(), 4);
        lemma_le_len(v.amount_donated as nat, 8);
        if campaign_bytes(v) == d {
            let k = KEY_LEN as int;
            let p = k + text_bytes(v.name).len();
            let q = p + text_bytes(v.description).len();
            let z = q + text_bytes(v.image_link).len();
            assert(d.subrange(k, p) =~= text_bytes(v.name));
            assert(d.subrange(p, q) =~= text_bytes(v.description));
            assert(d.subrange(q, z) =~= text_bytes(v.image_link));
            assert(d.subrange(z, z + 8) =~= le_bytes(v.amount_donated as nat, 8));
        }
    }
}

impl WithdrawRequest {
    /// Lays the request out as bytes.
    pub fn encode(&self) -> (r: Vec<u8>)
        ensures
            r@ == withdraw_bytes(self.amount),
    {
        u64_to_bytes(self.amount)
    }

    /// Reads a request; `None` unless the bytes are exactly one request.
    pub fn decode(d: &[u8]) -> (r: Option<WithdrawRequest>)
        ensures
            r matches Some(w) ==> parse_withdraw(d@) == Some(w.amount),
            r is None ==> parse_withdraw(d@) is None,
    {
        match u64_from_bytes(d) {
            Some(amount) => {
                proof {
                    lemma_parse_withdraw(d@, amount);
                }
                Some(WithdrawRequest { amount })
            },
            None => {
                assert forall|a: u64| withdraw_bytes(a) != d@ by {
                    lemma_le_len(a as nat, 8);
                }
                None
            },
        }
    }
}

} // verus!
