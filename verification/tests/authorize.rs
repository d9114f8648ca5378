use snarkvm_lite::authorize::{
    is_public_credits_function, Authorization, AuthorizeError, Function, Request, Stack,
};
use snarkvm_lite::identifier::Identifier;

fn ident(name: &str) -> Identifier {
    Identifier::from_str(name).unwrap()
}

fn function(name: &str, inputs: &[&str]) -> Function {
    Function { name: ident(name), input_types: inputs.iter().map(|s| s.to_string()).collect() }
}

fn credits_stack() -> Stack {
    Stack {
        program_id: "credits.aleo".to_string(),
        functions: vec![
            function("transfer_public", &["address.public", "u64.public"]),
            function("transfer_private", &["credits.record", "address.private", "u64.private"]),
        ],
    }
}

fn sign_ok(program_id: &String, function_name: &Identifier, input_types: &Vec<String>) -> Result<Request, String> {
    Ok(Request {
        program_id: program_id.clone(),
        function_name: ident(function_name.as_string()),
        body: vec![input_types.len() as u8],
    })
}

fn request(program_id: &str, function_name: &str) -> Request {
    Request { program_id: program_id.to_string(), function_name: ident(function_name), body: vec![] }
}

#[test]
fn authorize_signs_and_evaluates_root_request() {
    let stack = credits_stack();
    let auth = stack.authorize("transfer_public", sign_ok, |_a: &Authorization| Ok(vec![])).unwrap();
    assert_eq!(auth.requests().len(), 1);
    let root = &auth.requests()[0];
    assert_eq!(root.program_id, "credits.aleo");
    assert_eq!(root.function_name.as_string(), "transfer_public");
    assert_eq!(root.body, vec![2u8]);
}

#[test]
fn authorize_invalid_function_name() {
    let stack = credits_stack();
    for name in ["1transfer", "", "transfer-public", "u64", "a_name_that_is_much_too_long_for_an_identifier"] {
        let r = stack.authorize(name, sign_ok, |_a: &Authorization| Ok(vec![]));
        assert_eq!(r.err(), Some(AuthorizeError::InvalidFunctionName { function_name: name.to_string() }));
    }
}

#[test]
fn authorize_unknown_function() {
    let stack = credits_stack();
    let r = stack.authorize("mint", sign_ok, |_a: &Authorization| Ok(vec![]));
    assert_eq!(r.err(), Some(AuthorizeError::FunctionNotFound { function_name: "mint".to_string() }));
}

#[test]
fn authorize_signing_failure() {
    let stack = credits_stack();
    let r = stack.authorize(
        "transfer_private",
        |_p: &String, _f: &Identifier, _t: &Vec<String>| Err("bad input".to_string()),
        |_a: &Authorization| Ok(vec![]),
    );
    assert_eq!(r.err(), Some(AuthorizeError::SigningFailed("bad input".to_string())));
}

#[test]
fn authorize_checked_execution_failure() {
    let stack = credits_stack();
    let r = stack.authorize_checked("transfer_private", sign_ok, |_a: &Authorization| {
        Err("unsatisfied".to_string())
    });
    assert_eq!(r.err(), Some(AuthorizeError::EvaluationFailed("unsatisfied".to_string())));
}

#[test]
fn authorize_adds_requests_of_nested_calls() {
    let stack = Stack {
        program_id: "swap.aleo".to_string(),
        functions: vec![function("swap", &["u64.public"])],
    };
    let auth = stack
        .authorize("swap", sign_ok, |a: &Authorization| {
            assert_eq!(a.requests().len(), 1);
            Ok(vec![request("credits.aleo", "transfer_public"), request("token.aleo", "transfer_public")])
        })
        .unwrap();
    let names: Vec<(&str, &str)> =
        auth.requests().iter().map(|r| (r.program_id.as_str(), r.function_name.as_string().as_str())).collect();
    assert_eq!(names, vec![("swap.aleo", "swap"), ("credits.aleo", "transfer_public"), ("token.aleo", "transfer_public")]);
}

#[test]
fn authorize_credits_public_accepts_public_functions() {
    let stack = credits_stack();
    for name in [
        "bond_validator",
        "bond_public",
        "unbond_public",
        "claim_unbond_public",
        "set_validator_state",
        "transfer_public",
        "transfer_public_as_signer",
        "fee_public",
    ] {
        assert_eq!(stack.check_credits_public(&request("credits.aleo", name)), Ok(()));
        let auth =
            stack.authorize_credits_public(request("credits.aleo", name), |_a: &Authorization| Ok(vec![])).unwrap();
        assert_eq!(auth.requests().len(), 1);
        assert_eq!(auth.requests()[0].function_name.as_string(), name);
    }
}

#[test]
fn authorize_credits_public_refuses_private_functions() {
    let stack = credits_stack();
    let mut evaluated = false;
    let r = stack.authorize_credits_public(request("credits.aleo", "transfer_private"), |_a: &Authorization| {
        evaluated = true;
        Ok(vec![])
    });
    assert_eq!(
        r.err(),
        Some(AuthorizeError::NotPublicCreditsFunction { function_name: "transfer_private".to_string() })
    );
    assert!(!evaluated);
    assert!(!is_public_credits_function(&"fee_private".to_string()));
    assert!(is_public_credits_function(&"fee_public".to_string()));
}

#[test]
fn authorize_credits_public_refuses_other_programs() {
    let stack = Stack { program_id: "token.aleo".to_string(), functions: vec![function("transfer_public", &[])] };
    let expected = AuthorizeError::NotCreditsProgram { program_id: "token.aleo".to_string() };
    assert_eq!(stack.check_credits_public(&request("token.aleo", "transfer_public")), Err(expected));
    let r = stack.authorize_credits_public(request("token.aleo", "transfer_public"), |_a: &Authorization| Ok(vec![]));
    assert_eq!(r.err(), Some(AuthorizeError::NotCreditsProgram { program_id: "token.aleo".to_string() }));
}

#[test]
fn authorize_credits_public_evaluation_failure() {
    let stack = credits_stack();
    let r = stack.authorize_credits_public(request("credits.aleo", "bond_public"), |_a: &Authorization| {
        Err("insufficient balance".to_string())
    });
    assert_eq!(r.err(), Some(AuthorizeError::EvaluationFailed("insufficient balance".to_string())));
}
