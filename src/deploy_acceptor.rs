use vstd::prelude::*;

use crate::types::DeployHash;

verus! {

/// What the acceptor asks for after handing a deploy to storage.
#[derive(Clone, Copy, Debug, PartialEq, Eq, Structural)]
pub enum AcceptorEffect {
    /// Store the deploy.
    PutToStorage { deploy: DeployHash },
    /// Announce a deploy that storage had not seen before.
    AnnounceNewDeployAccepted { deploy: DeployHash },
    /// Tell the party that submitted the deploy that it was accepted.
    RespondAccepted,
}

/// Accepts deploys: stores them, announces new ones and answers their submitters.
#[derive(Clone, Copy, Debug)]
pub struct DeployAcceptor {}

impl DeployAcceptor {
    pub fn new() -> (r: DeployAcceptor) {
        DeployAcceptor {  }
    }

    /// The first step for a new deploy: put it to storage.
    pub fn accept(&mut self, deploy: DeployHash) -> (r: AcceptorEffect)
        ensures
            r == (AcceptorEffect::PutToStorage { deploy }),
    {
        AcceptorEffect::PutToStorage { deploy }
    }

    /// After storage: announce the deploy if storage had not held it, then answer the
    /// submitter if there is one.
    pub fn handle_put_to_storage(&self, deploy: DeployHash, is_new: bool, has_responder: bool) -> (r:
        Vec<AcceptorEffect>)
        ensures
            r@ == (if is_new {
                seq![AcceptorEffect::AnnounceNewDeployAccepted { deploy }]
            } else {
                Seq::<AcceptorEffect>::empty()
            }) + (if has_responder {
                seq![AcceptorEffect::RespondAccepted]
            } else {
                Seq::<AcceptorEffect>::empty()
            }),
    {
        let mut r: Vec<AcceptorEffect> = Vec::new();
        if is_new {
            r.push(AcceptorEffect::AnnounceNewDeployAccepted { deploy });
        }
        if has_responder {
            r.push(AcceptorEffect::RespondAccepted);
        }
        proof {
            let a = if is_new {
                seq![AcceptorEffect::AnnounceNewDeployAccepted { deploy }]
            } else {
                Seq::<AcceptorEffect>::empty()
            };
            let b = if has_responder {
                seq![AcceptorEffect::RespondAccepted]
            } else {
                Seq::<AcceptorEffect>::empty()
            };
            assert(r@ =~= a + b);
        }
        r
    }
}

} // verus!
