//! The commands of the tool, and the decisions they take.
use crate::args::ArgWithType;
use crate::error::ArgError;
use crate::hex_codec::HexEncodedBytes;
use crate::script_args::ScriptFunctionArguments;
use crate::script_transaction::ScriptTransaction;
use crate::type_args::{tag_of, TypeTag};
use blake2::Digest;
use vstd::prelude::*;

verus! {

/// The extension of compiled module files.
pub open spec fn compiled_ext() -> Seq<char> {
    ".mv"@
}

/// Bundles the modules of the package.
pub struct Bundle {
    /// Bundle name; the package's name when absent.
    pub name: Option<String>,
    /// Names of modules to leave out of the bundle.
    pub modules_exclude: Vec<String>,
}

impl Bundle {
    /// Whether the compiled module file `file_name` is left out: it is the
    /// name of an excluded module followed by `.mv`.
    pub fn excludes(&self, file_name: &str) -> (r: bool)
        ensures
            r == exists|i: int|
                0 <= i < self.modules_exclude@.len() && file_name@ == (
                #[trigger] self.modules_exclude@[i])@ + compiled_ext(),
    {
        let target = file_name.to_owned();
        let mut i: usize = 0;
        while i < self.modules_exclude.len()
            invariant
                i <= self.modules_exclude@.len(),
                target@ == file_name@,
                forall|j: int|
                    0 <= j < i ==> file_name@ != (#[trigger] self.modules_exclude@[j])@
                        + compiled_ext(),
            decreases self.modules_exclude@.len() - i,
        {
            let mut candidate = self.modules_exclude[i].clone();
            candidate.append(".mv");
            if candidate == target {
                return true;
            }
            i += 1;
        }
        false
    }

    /// The name of the bundle: the one given, else the package's.
    pub fn bundle_name(&self, package_name: &str) -> (r: String)
        ensures
            r@ == match self.name {
                Some(n) => n@,
                None => package_name@,
            },
    {
        match &self.name {
            Some(n) => n.clone(),
            None => package_name.to_owned(),
        }
    }
}

/// Calculates the hash of a script transaction.
pub struct CallHash {
    /// Path to the script transaction file.
    pub script_transaction_path: String,
}

/// The BLAKE2s-256 digest of `data`.
pub uninterp spec fn blake2s_256_of(data: Seq<u8>) -> Seq<u8>;

/// Relies on `blake2::Blake2s256`: a 32-byte digest of the input.
#[verifier::external_body]
fn blake2s_256(data: &[u8]) -> (r: Vec<u8>)
    ensures
        r@ == blake2s_256_of(data@),
        r@.len() == 32,
{
    blake2::Blake2s256::digest(data).to_vec()
}

impl CallHash {
    /// The call hash of a script transaction's bytes.
    pub fn call_hash(script_tx: &Vec<u8>) -> (r: HexEncodedBytes)
        ensures
            r.0@ == blake2s_256_of(script_tx@),
            r.0@.len() == 32,
    {
        HexEncodedBytes(blake2s_256(script_tx.as_slice()))
    }
}

/// Estimate gas for publishing a module.
pub struct EstimateGasPublishModule {
    /// Account ID in the SS58 format.
    pub account_id: String,
    /// Path to the module.
    pub module_file: String,
}

/// Estimate gas for publishing a bundle.
pub struct EstimateGasPublishBundle {
    /// Account ID in the SS58 format.
    pub account_id: String,
    /// Path to the bundle.
    pub bundle_path: String,
}

/// Estimate gas for executing a script.
pub struct EstimateGasExecuteScript {
    /// Path to the script transaction.
    pub script_transaction_path: String,
}

/// Convert gas to weight.
pub struct GasToWeight {
    pub gas: u64,
}

/// Get a module's ABI.
pub struct GetModuleAbi {
    /// Address of the module.
    pub address: String,
    /// Name of the module.
    pub name: String,
}

/// The node's RPC requests.
#[allow(inconsistent_fields)]
pub enum Rpc {
    EstimateGasPublishModule { cmd: EstimateGasPublishModule },
    EstimateGasPublishBundle { cmd: EstimateGasPublishBundle },
    EstimateGasExecuteScript { cmd: EstimateGasExecuteScript },
    GetModuleAbi { cmd: GetModuleAbi },
}

/// The RPC method that each request calls.
pub open spec fn rpc_method(r: &Rpc) -> Seq<char> {
    match r {
        Rpc::EstimateGasPublishModule { .. } => "mvm_estimateGasPublishModule"@,
        Rpc::EstimateGasPublishBundle { .. } => "mvm_estimateGasPublishBundle"@,
        Rpc::EstimateGasExecuteScript { .. } => "mvm_estimateGasExecuteScript"@,
        Rpc::GetModuleAbi { .. } => "mvm_getModuleABI"@,
    }
}

/// The RPC method that converts gas to weight.
pub open spec fn gas_to_weight_method() -> Seq<char> {
    "mvm_gasToWeight"@
}

impl Rpc {
    /// The name of the RPC method this request calls.
    pub fn method(&self) -> (r: &'static str)
        ensures
            r@ == rpc_method(self),
    {
        match self {
            Rpc::EstimateGasPublishModule { .. } => "mvm_estimateGasPublishModule",
            Rpc::EstimateGasPublishBundle { .. } => "mvm_estimateGasPublishBundle",
            Rpc::EstimateGasExecuteScript { .. } => "mvm_estimateGasExecuteScript",
            Rpc::GetModuleAbi { .. } => "mvm_getModuleABI",
        }
    }
}

impl GasToWeight {
    /// The name of the RPC method that converts gas to weight.
    pub fn method(&self) -> (r: &'static str)
        ensures
            r@ == gas_to_weight_method(),
    {
        "mvm_gasToWeight"
    }
}

/// Ways of accessing the node.
pub enum NodeCmd {
    /// The node's RPC requests.
    Rpc(Rpc),
}

/// Commands for accessing the node.
pub struct Node {
    pub cmd: NodeCmd,
    /// URL of the node's endpoint.
    pub url: String,
}

/// The default URL of the node's endpoint.
pub open spec fn default_node_url() -> Seq<char> {
    "http://localhost:9944/"@
}

impl Node {
    /// The node's URL that is used when none is given.
    pub fn default_url() -> (r: &'static str)
        ensures
            r@ == default_node_url(),
    {
        "http://localhost:9944/"
    }
}

/// Builds the package (bundling is left to [`Bundle`]).
pub struct Package {}

/// Creates a script transaction.
pub struct CreateTransaction {
    /// Path of the compiled script.
    pub compiled_script_path: String,
    /// Arguments of the script function.
    pub script_function_args: ScriptFunctionArguments,
}

impl CreateTransaction {
    /// The transaction that calls the script `bytecode` with this command's
    /// arguments; fails when a type argument has no on-chain tag.
    pub fn transaction(&self, bytecode: Vec<u8>) -> (r: Result<ScriptTransaction, ArgError>)
        ensures
            match r {
                Ok(tx) => tx.bytecode@ == bytecode@ && tx.args@.len()
                    == self.script_function_args.arg_vec.args@.len() && (forall|i: int|
                    0 <= i < tx.args@.len() ==> (#[trigger] tx.args@[i])@
                        == self.script_function_args.arg_vec.args@[i].arg@) && tx.type_args@.len()
                    == self.script_function_args.type_arg_vec.type_args@.len() && forall|i: int|
                    0 <= i < tx.type_args@.len() ==> tag_of(
                        #[trigger] self.script_function_args.type_arg_vec.type_args@[i]@,
                    ) == Some(tx.type_args@[i]),
                Err(ArgError::TypeConversion) => exists|i: int|
                    0 <= i < self.script_function_args.type_arg_vec.type_args@.len() && tag_of(
                        #[trigger] self.script_function_args.type_arg_vec.type_args@[i]@,
                    ) is None,
                Err(_) => false,
            },
    {
        let type_args = match self.script_function_args.type_args() {
            Ok(t) => t,
            Err(e) => {
                return Err(e);
            },
        };
        let args = match self.script_function_args.args() {
            Ok(a) => a,
            Err(e) => {
                return Err(e);
            },
        };
        Ok(ScriptTransaction { bytecode, args, type_args })
    }
}

} // verus!
