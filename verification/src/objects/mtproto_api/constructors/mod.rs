//! The constructors of the exchange: each is a record with a constructor ID.

#![allow(non_camel_case_types)]

mod client_dh_inner_data;
mod p_q_inner_data;
mod res_pq;
mod server_dh_inner_data;
mod server_dh_params;

pub use client_dh_inner_data::client_DH_inner_data;
pub use client_dh_inner_data::ClientDhInnerDataFields;
pub use p_q_inner_data::p_q_inner_data_dc;
pub use p_q_inner_data::p_q_inner_data_temp_dc;
pub use p_q_inner_data::PqInnerDataDcFields;
pub use p_q_inner_data::PqInnerDataTempDcFields;
pub use res_pq::lemma_factored_semiprime;
pub use res_pq::resPQ;
pub use res_pq::FactorizeError;
pub use res_pq::ResPqFields;
pub use server_dh_inner_data::check_residue;
pub use server_dh_inner_data::half_of;
pub use server_dh_inner_data::record_verdict;
pub use server_dh_inner_data::PRIME_CHECKS;
pub use server_dh_inner_data::residue_ok;
pub use server_dh_inner_data::server_DH_inner_data;
pub use server_dh_inner_data::CheckDhPrimeError;
pub use server_dh_inner_data::ServerDhInnerDataFields;
pub use server_dh_params::derive_tmp_aes;
pub use server_dh_params::server_DH_params_ok;
pub use server_dh_params::tmp_aes_iv;
pub use server_dh_params::tmp_aes_key;
pub use server_dh_params::DecryptError;
pub use server_dh_params::ServerDhParamsOkFields;
