//! What the EVM tools decide around the Beam RPC service: which method a
//! call names, the workspace root they work in, which methods need it, and
//! the errors they answer with. Signing and sending are the service's part.
use vstd::prelude::*;
use crate::text::{concat2, concat3, owned, str_eq, str_views};

verus! {

/// An EVM method.
#[derive(Debug, Clone, Copy, PartialEq, Eq, Structural)]
pub enum EvmMethod {
    Connect,
    CreateWallet,
    ImportWallet,
    GetWallet,
    ListWallets,
    EstimateGas,
    SignTransaction,
    SendTransaction,
}

pub open spec fn evm_method_of(name: Seq<char>) -> Option<EvmMethod> {
    if name == "beam_rpc_connect"@ {
        Some(EvmMethod::Connect)
    } else if name == "beam_create_wallet"@ {
        Some(EvmMethod::CreateWallet)
    } else if name == "beam_import_wallet"@ {
        Some(EvmMethod::ImportWallet)
    } else if name == "beam_get_wallet"@ {
        Some(EvmMethod::GetWallet)
    } else if name == "beam_list_wallets"@ {
        Some(EvmMethod::ListWallets)
    } else if name == "beam_estimate_gas"@ {
        Some(EvmMethod::EstimateGas)
    } else if name == "beam_sign_transaction"@ {
        Some(EvmMethod::SignTransaction)
    } else if name == "beam_send_transaction"@ {
        Some(EvmMethod::SendTransaction)
    } else {
        None
    }
}

pub fn evm_method(name: &str) -> (r: Option<EvmMethod>)
    ensures
        r == evm_method_of(name@),
{
    if str_eq(name, "beam_rpc_connect") {
        Some(EvmMethod::Connect)
    } else if str_eq(name, "beam_create_wallet") {
        Some(EvmMethod::CreateWallet)
    } else if str_eq(name, "beam_import_wallet") {
        Some(EvmMethod::ImportWallet)
    } else if str_eq(name, "beam_get_wallet") {
        Some(EvmMethod::GetWallet)
    } else if str_eq(name, "beam_list_wallets") {
        Some(EvmMethod::ListWallets)
    } else if str_eq(name, "beam_estimate_gas") {
        Some(EvmMethod::EstimateGas)
    } else if str_eq(name, "beam_sign_transaction") {
        Some(EvmMethod::SignTransaction)
    } else if str_eq(name, "beam_send_transaction") {
        Some(EvmMethod::SendTransaction)
    } else {
        None
    }
}

pub fn unknown_evm_method(name: &str) -> (r: String)
    ensures
        r@ == "Unknown evm method: "@ + name@,
{
    concat2("Unknown evm method: ", name)
}

/// The root the EVM tools work in: the workspace's first allowed path; empty
/// where the workspace could not be loaded or has none.
pub open spec fn evm_root(allowed_paths: Option<Seq<Seq<char>>>) -> Seq<char> {
    match allowed_paths {
        Some(p) => if p.len() > 0 { p[0] } else { Seq::empty() },
        None => Seq::empty(),
    }
}

pub fn evm_workspace_path(allowed_paths: Option<&Vec<String>>) -> (r: String)
    ensures
        r@ == evm_root(match allowed_paths {
            Some(p) => Some(str_views(p@)),
            None => None,
        }),
{
    match allowed_paths {
        Some(p) => {
            if p.len() > 0 {
                p[0].clone()
            } else {
                String::new()
            }
        },
        None => String::new(),
    }
}

/// Why a method cannot run without a workspace root, where it needs one.
pub open spec fn root_refusal(m: EvmMethod, root: Seq<char>) -> Option<Seq<char>> {
    if root.len() > 0 {
        None
    } else {
        match m {
            EvmMethod::Connect => Some("Cannot connect: workspace has no allowed paths configured"@),
            EvmMethod::EstimateGas | EvmMethod::SignTransaction | EvmMethod::SendTransaction =>
                Some("Workspace path required — run beam_rpc_connect first"@),
            _ => None,
        }
    }
}

pub fn evm_root_refusal(m: EvmMethod, workspace_path: &str) -> (r: Option<String>)
    ensures
        match root_refusal(m, workspace_path@) {
            Some(e) => r matches Some(x) && x@ == e,
            None => r is None,
        },
{
    if crate::text::chars_of(workspace_path).len() > 0 {
        return None;
    }
    match m {
        EvmMethod::Connect => Some(owned("Cannot connect: workspace has no allowed paths configured")),
        EvmMethod::EstimateGas | EvmMethod::SignTransaction | EvmMethod::SendTransaction =>
            Some(owned("Workspace path required — run beam_rpc_connect first")),
        _ => None,
    }
}

/// The error of a connection to a network that the service does not know.
pub fn unknown_network_message(network: &str) -> (r: String)
    ensures
        r@ == "Unknown network '"@ + network@ + "'. Use 'mainnet' or 'testnet'"@,
{
    concat3("Unknown network '", network, "'. Use 'mainnet' or 'testnet'")
}

} // verus!
