use state_machine::balances;
use state_machine::proof_of_existence;
use state_machine::support::{DispatchError, Extrinsic, Header};
use state_machine::{Block, Runtime, RuntimeCall};

fn transfer_call(to: &str, amount: u128) -> RuntimeCall {
    RuntimeCall::Balances(balances::Call::Transfer {
        to: to.to_string(),
        amount,
    })
}

fn create_claim_call(claim: &str) -> RuntimeCall {
    RuntimeCall::ProofOfExistence(proof_of_existence::Call::CreateClaim {
        claim: claim.to_string(),
    })
}

fn revoke_claim_call(claim: &str) -> RuntimeCall {
    RuntimeCall::ProofOfExistence(proof_of_existence::Call::RevokeClaim {
        claim: claim.to_string(),
    })
}

#[test]
fn genesis_state_is_empty() {
    let runtime = Runtime::new();
    assert_eq!(runtime.system.block_number(), 0);
    assert_eq!(runtime.system.nonce(&"dev0".to_string()), 0);
    assert_eq!(runtime.balances.balance(&"dev0".to_string()), 0);
    assert_eq!(
        runtime.proof_of_existence.get_claim(&"oi".to_string()),
        None
    );
}

#[test]
fn executing_a_valid_block_applies_its_extrinsics() {
    let mut runtime = Runtime::new();
    runtime.balances.set_balance(&"dev0".to_string(), 100);

    let block = Block {
        header: Header { block_number: 1 },
        extrinsics: vec![
            Extrinsic {
                caller: "dev0".to_string(),
                call: transfer_call("dev1", 20),
            },
            Extrinsic {
                caller: "dev0".to_string(),
                call: create_claim_call("oi"),
            },
        ],
    };

    assert!(runtime.can_execute(&block));
    assert_eq!(runtime.execute_block(block), Ok(()));

    assert_eq!(runtime.system.block_number(), 1);
    assert_eq!(runtime.system.nonce(&"dev0".to_string()), 2);
    assert_eq!(runtime.balances.balance(&"dev0".to_string()), 80);
    assert_eq!(runtime.balances.balance(&"dev1".to_string()), 20);
    assert_eq!(
        runtime.proof_of_existence.get_claim(&"oi".to_string()),
        Some(&"dev0".to_string())
    );
}

#[test]
fn mismatched_block_number_is_rejected() {
    // The head advances before validation: submitting a block declared as 2
    // while the head was never advanced makes the head 1, mismatching the
    // declaration, and none of the block's extrinsics runs.
    let mut runtime = Runtime::new();
    runtime.balances.set_balance(&"dev0".to_string(), 100);

    let block = Block {
        header: Header { block_number: 2 },
        extrinsics: vec![Extrinsic {
            caller: "dev0".to_string(),
            call: transfer_call("dev1", 20),
        }],
    };

    let res = runtime.execute_block(block);
    assert_eq!(res, Err(DispatchError::BlockNumberMismatch));
    assert_eq!(res.unwrap_err().message(), "Block number mismatch");
    assert_eq!(runtime.system.block_number(), 1);
    assert_eq!(runtime.system.nonce(&"dev0".to_string()), 0);
    assert_eq!(runtime.balances.balance(&"dev0".to_string()), 100);
    assert_eq!(runtime.balances.balance(&"dev1".to_string()), 0);
}

#[test]
fn head_advances_once_per_block_attempt() {
    // A rejected block consumes a head slot just as an accepted one does.
    let mut runtime = Runtime::new();

    let rejected = Block {
        header: Header { block_number: 7 },
        extrinsics: vec![],
    };
    assert_eq!(
        runtime.execute_block(rejected),
        Err(DispatchError::BlockNumberMismatch)
    );
    assert_eq!(runtime.system.block_number(), 1);

    let accepted = Block {
        header: Header { block_number: 2 },
        extrinsics: vec![],
    };
    assert_eq!(runtime.execute_block(accepted), Ok(()));
    assert_eq!(runtime.system.block_number(), 2);
}

#[test]
fn failing_extrinsics_are_contained_and_still_counted() {
    // A failing dispatch neither fails the block nor stops later extrinsics,
    // and the caller's nonce is counted whatever the dispatch outcome.
    let mut runtime = Runtime::new();
    runtime.balances.set_balance(&"dev0".to_string(), 100);
    runtime
        .proof_of_existence
        .create_claim("azuki".to_string(), "oi".to_string())
        .unwrap();

    let block = Block {
        header: Header { block_number: 1 },
        extrinsics: vec![
            Extrinsic {
                caller: "dev0".to_string(),
                call: transfer_call("dev1", 150),
            },
            Extrinsic {
                caller: "dev0".to_string(),
                call: create_claim_call("oi"),
            },
            Extrinsic {
                caller: "dev0".to_string(),
                call: revoke_claim_call("oi"),
            },
            Extrinsic {
                caller: "dev0".to_string(),
                call: transfer_call("dev1", 30),
            },
        ],
    };

    assert_eq!(runtime.execute_block(block), Ok(()));

    assert_eq!(runtime.system.nonce(&"dev0".to_string()), 4);
    assert_eq!(runtime.balances.balance(&"dev0".to_string()), 70);
    assert_eq!(runtime.balances.balance(&"dev1".to_string()), 30);
    assert_eq!(
        runtime.proof_of_existence.get_claim(&"oi".to_string()),
        Some(&"azuki".to_string())
    );
}

#[test]
fn blocks_chain_in_order() {
    let mut runtime = Runtime::new();
    runtime.balances.set_balance(&"dev0".to_string(), 100);

    let block_1 = Block {
        header: Header { block_number: 1 },
        extrinsics: vec![
            Extrinsic {
                caller: "dev0".to_string(),
                call: transfer_call("dev1", 20),
            },
            Extrinsic {
                caller: "dev0".to_string(),
                call: create_claim_call("oi"),
            },
        ],
    };
    let block_2 = Block {
        header: Header { block_number: 2 },
        extrinsics: vec![
            Extrinsic {
                caller: "azuki".to_string(),
                call: create_claim_call("tchau"),
            },
            Extrinsic {
                caller: "dev0".to_string(),
                call: revoke_claim_call("oi"),
            },
        ],
    };

    assert_eq!(runtime.execute_block(block_1), Ok(()));
    assert_eq!(runtime.execute_block(block_2), Ok(()));

    assert_eq!(runtime.system.block_number(), 2);
    assert_eq!(runtime.system.nonce(&"dev0".to_string()), 3);
    assert_eq!(runtime.system.nonce(&"azuki".to_string()), 1);
    assert_eq!(runtime.balances.balance(&"dev0".to_string()), 80);
    assert_eq!(runtime.balances.balance(&"dev1".to_string()), 20);
    assert_eq!(
        runtime.proof_of_existence.get_claim(&"oi".to_string()),
        None
    );
    assert_eq!(
        runtime.proof_of_existence.get_claim(&"tchau".to_string()),
        Some(&"azuki".to_string())
    );
}
