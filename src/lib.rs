use vstd::prelude::*;

pub mod block_builder;
pub mod block_synchronizer;
pub mod deploy_acceptor;
pub mod deploy_buffer;
pub mod fetcher;
pub mod hashing;
pub mod peer_list;
mod random;
pub mod requests;
pub mod validator_matrix;
pub mod transaction_category;
pub mod types;

verus! {

} // verus!
