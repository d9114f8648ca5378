//! Authorization of calls to a program's functions: locating the function,
//! signing the root request, and evaluating the call, with the restriction
//! of fee-free public authorization to the public functions of `credits.aleo`.

use vstd::prelude::*;
use crate::identifier::{Identifier, is_identifier};

verus! {

/// A function of a program: its name and the types of its inputs.
pub struct Function {
    pub name: Identifier,
    pub input_types: Vec<String>,
}

/// The stack of a program: its ID and its functions.
pub struct Stack {
    pub program_id: String,
    pub functions: Vec<Function>,
}

/// A signed request to call a program function: the program and function it
/// names, and the rest of the signed request, serialized.
pub struct Request {
    pub program_id: String,
    pub function_name: Identifier,
    pub body: Vec<u8>,
}

/// An authorization: the requests that a call makes, the root request first.
pub struct Authorization {
    requests: Vec<Request>,
}

impl View for Authorization {
    type V = Seq<Request>;

    closed spec fn view(&self) -> Seq<Request> {
        self.requests@
    }
}

impl Authorization {
    /// An authorization that holds the root request alone.
    pub fn new(request: Request) -> (a: Authorization)
        ensures
            a@ == seq![request],
    {
        let mut requests = Vec::new();
        requests.push(request);
        proof {
            assert(requests@ =~= seq![request]);
        }
        Authorization { requests }
    }

    /// Appends the requests of further calls, in order.
    pub fn push_all(&mut self, requests: Vec<Request>)
        ensures
            final(self)@ == old(self)@ + requests@,
    {
        let mut requests = requests;
        self.requests.append(&mut requests);
    }

    /// The requests, the root request first.
    pub fn requests(&self) -> (r: &Vec<Request>)
        ensures
            r@ == self@,
    {
        &self.requests
    }
}

/// Why an authorization was refused.
#[derive(Debug, PartialEq, Eq)]
pub enum AuthorizeError {
    /// The function name is not an identifier.
    InvalidFunctionName { function_name: String },
    /// The program has no function of this name.
    FunctionNotFound { function_name: String },
    /// Public credits authorization was asked of a program other than `credits.aleo`.
    NotCreditsProgram { program_id: String },
    /// The request is for a function outside the public functions of `credits.aleo`.
    NotPublicCreditsFunction { function_name: String },
    /// Signing the root request failed.
    SigningFailed(String),
    /// Evaluating (or executing) the call failed.
    EvaluationFailed(String),
}

/// The ID of the credits program.
pub open spec fn credits_program_id() -> Seq<char> {
    "credits.aleo"@
}

/// The functions of `credits.aleo` whose inputs and outputs are all public.
pub open spec fn public_credits_function_names() -> Seq<Seq<char>> {
    seq![
        "bond_validator"@,
        "bond_public"@,
        "unbond_public"@,
        "claim_unbond_public"@,
        "set_validator_state"@,
        "transfer_public"@,
        "transfer_public_as_signer"@,
        "fee_public"@,
    ]
}

/// The public functions of `credits.aleo` are exactly these eight.
pub proof fn lemma_public_credits_function_names(name: Seq<char>)
    ensures
        public_credits_function_names().len() == 8,
        public_credits_function_names().contains(name) <==> (
            name == "bond_validator"@
            || name == "bond_public"@
            || name == "unbond_public"@
            || name == "claim_unbond_public"@
            || name == "set_validator_state"@
            || name == "transfer_public"@
            || name == "transfer_public_as_signer"@
            || name == "fee_public"@),
{
    let names = public_credits_function_names();
    if name == "bond_validator"@ { assert(names[0] == name); }
    if name == "bond_public"@ { assert(names[1] == name); }
    if name == "unbond_public"@ { assert(names[2] == name); }
    if name == "claim_unbond_public"@ { assert(names[3] == name); }
    if name == "set_validator_state"@ { assert(names[4] == name); }
    if name == "transfer_public"@ { assert(names[5] == name); }
    if name == "transfer_public_as_signer"@ { assert(names[6] == name); }
    if name == "fee_public"@ { assert(names[7] == name); }
}

/// Functions with a private input or output are not public credits functions.
pub proof fn lemma_private_credits_functions_refused()
    ensures
        !public_credits_function_names().contains("transfer_public_to_private"@),
        !public_credits_function_names().contains("transfer_private"@),
        !public_credits_function_names().contains("transfer_private_to_public"@),
        !public_credits_function_names().contains("fee_private"@),
{
    reveal_strlit("bond_validator");
    reveal_strlit("bond_public");
    reveal_strlit("unbond_public");
    reveal_strlit("claim_unbond_public");
    reveal_strlit("set_validator_state");
    reveal_strlit("transfer_public");
    reveal_strlit("transfer_public_as_signer");
    reveal_strlit("fee_public");
    reveal_strlit("transfer_public_to_private");
    reveal_strlit("transfer_private");
    reveal_strlit("transfer_private_to_public");
    reveal_strlit("fee_private");
    assert("bond_validator"@.len() == 14);
    assert("bond_public"@.len() == 11);
    assert("unbond_public"@.len() == 13);
    assert("claim_unbond_public"@.len() == 19);
    assert("set_validator_state"@.len() == 19);
    assert("transfer_public"@.len() == 15);
    assert("transfer_public_as_signer"@.len() == 25);
    assert("fee_public"@.len() == 10);
    assert("transfer_public_to_private"@.len() == 26);
    assert("transfer_private"@.len() == 16);
    assert("transfer_private_to_public"@.len() == 26);
    assert("fee_private"@.len() == 11);
    assert("fee_private"@[0] != "bond_public"@[0]);
    lemma_public_credits_function_names("transfer_public_to_private"@);
    lemma_public_credits_function_names("transfer_private"@);
    lemma_public_credits_function_names("transfer_private_to_public"@);
    lemma_public_credits_function_names("fee_private"@);
}

/// `i` is the position of the first function named `name`.
pub open spec fn is_function_index(functions: Seq<Function>, name: Seq<char>, i: int) -> bool {
    &&& 0 <= i < functions.len()
    &&& functions[i].name@ == name
    &&& forall|j: int| 0 <= j < i ==> (#[trigger] functions[j]).name@ != name
}

/// No function is named `name`.
pub open spec fn has_no_function(functions: Seq<Function>, name: Seq<char>) -> bool {
    forall|j: int| 0 <= j < functions.len() ==> (#[trigger] functions[j]).name@ != name
}

/// The outcome of evaluating the authorization that holds `request` alone:
/// when `evaluate` accepts it, returning the requests of the further calls
/// that the call makes, `r` is the authorization that holds `request` and
/// then those requests; otherwise `r` is the evaluation error.
pub open spec fn evaluated<E: FnOnce(&Authorization) -> Result<Vec<Request>, String>>(
    evaluate: E,
    request: Request,
    r: Result<Authorization, AuthorizeError>,
) -> bool {
    exists|a: Authorization, outcome: Result<Vec<Request>, String>| {
        &&& a@ == seq![request]
        &&& #[trigger] call_ensures(evaluate, (&a,), outcome)
        &&& match outcome {
            Ok(nested) => r matches Ok(b) && b@ == seq![request] + nested@,
            Err(m) => r == Err::<Authorization, AuthorizeError>(AuthorizeError::EvaluationFailed(m)),
        }
    }
}

/// The outcome of signing the root request with `sign` and evaluating the
/// resulting authorization with `evaluate`.
pub open spec fn signed_and_evaluated<
    S: FnOnce(&String, &Identifier, &Vec<String>) -> Result<Request, String>,
    E: FnOnce(&Authorization) -> Result<Vec<Request>, String>,
>(
    sign: S,
    evaluate: E,
    program_id: String,
    function_name: Identifier,
    input_types: Vec<String>,
    r: Result<Authorization, AuthorizeError>,
) -> bool {
    exists|signed: Result<Request, String>| {
        &&& #[trigger] call_ensures(sign, (&program_id, &function_name, &input_types), signed)
        &&& match signed {
            Ok(request) => evaluated(evaluate, request, r),
            Err(m) => r == Err::<Authorization, AuthorizeError>(AuthorizeError::SigningFailed(m)),
        }
    }
}

/// Whether `name` is one of the public functions of `credits.aleo`.
pub fn is_public_credits_function(name: &String) -> (b: bool)
    ensures
        b == public_credits_function_names().contains(name@),
{
    let mut names: Vec<String> = Vec::new();
    names.push("bond_validator".to_owned());
    names.push("bond_public".to_owned());
    names.push("unbond_public".to_owned());
    names.push("claim_unbond_public".to_owned());
    names.push("set_validator_state".to_owned());
    names.push("transfer_public".to_owned());
    names.push("transfer_public_as_signer".to_owned());
    names.push("fee_public".to_owned());
    let ghost spec_names = public_credits_function_names();
    assert(names@.len() == spec_names.len());
    assert(forall|k: int| 0 <= k < names@.len() ==> (#[trigger] names@[k])@ == spec_names[k]);
    let n = names.len();
    for i in 0..n
        invariant
            n == names@.len(),
            n == spec_names.len(),
            spec_names == public_credits_function_names(),
            forall|k: int| 0 <= k < names@.len() ==> (#[trigger] names@[k])@ == spec_names[k],
            forall|k: int| 0 <= k < i ==> spec_names[k] != name@,
    {
        if names[i] == *name {
            return true;
        }
    }
    false
}

impl Stack {
    /// The position of the first function named `name`, if there is one.
    pub fn get_function(&self, name: &Identifier) -> (r: Option<usize>)
        ensures
            r matches Some(i) ==> is_function_index(self.functions@, name@, i as int),
            r is None <==> has_no_function(self.functions@, name@),
    {
        let n = self.functions.len();
        for i in 0..n
            invariant
                n == self.functions@.len(),
                forall|j: int| 0 <= j < i ==> (#[trigger] self.functions@[j]).name@ != name@,
        {
            if *self.functions[i].name.as_string() == *name.as_string() {
                return Some(i);
            }
        }
        None
    }

    /// Evaluates a call from the authorization that holds its root request,
    /// adding the requests of the further calls that it makes.
    fn evaluate_root<E>(request: Request, evaluate: E) -> (r: Result<Authorization, AuthorizeError>)
        where
            E: FnOnce(&Authorization) -> Result<Vec<Request>, String>,
        requires
            forall|a: &Authorization| call_requires(evaluate, (a,)),
        ensures
            evaluated(evaluate, request, r),
    {
        let ghost root = request;
        let mut authorization = Authorization::new(request);
        let outcome = evaluate(&authorization);
        assert(call_ensures(evaluate, (&authorization,), outcome));
        match outcome {
            Ok(nested) => {
                authorization.push_all(nested);
                Ok(authorization)
            },
            Err(m) => Err(AuthorizeError::EvaluationFailed(m)),
        }
    }

    /// Signs the root request of a call and evaluates it.
    fn authorize_root<S, E>(&self, function_name: &str, sign: S, evaluate: E) -> (r: Result<Authorization, AuthorizeError>)
        where
            S: FnOnce(&String, &Identifier, &Vec<String>) -> Result<Request, String>,
            E: FnOnce(&Authorization) -> Result<Vec<Request>, String>,
        requires
            forall|p: &String, f: &Identifier, t: &Vec<String>| call_requires(sign, (p, f, t)),
            forall|a: &Authorization| call_requires(evaluate, (a,)),
        ensures
            !is_identifier(function_name@) ==> (
                r matches Err(AuthorizeError::InvalidFunctionName { function_name: n })
                && n@ == function_name@),
            is_identifier(function_name@) && has_no_function(self.functions@, function_name@) ==> (
                r matches Err(AuthorizeError::FunctionNotFound { function_name: n })
                && n@ == function_name@),
            is_identifier(function_name@) && !has_no_function(self.functions@, function_name@) ==>
                exists|i: int| is_function_index(self.functions@, function_name@, i),
            forall|i: int| is_identifier(function_name@) && is_function_index(self.functions@, function_name@, i)
                ==> signed_and_evaluated(
                sign,
                evaluate,
                self.program_id,
                self.functions@[i].name,
                self.functions@[i].input_types,
                r,
            ),
    {
        let name = match Identifier::from_str(function_name) {
            Ok(name) => name,
            Err(_) => {
                return Err(AuthorizeError::InvalidFunctionName { function_name: function_name.to_owned() });
            },
        };
        let index = self.get_function(&name);
        match index {
            None => Err(AuthorizeError::FunctionNotFound { function_name: name.as_string().clone() }),
            Some(i) => {
                let function = &self.functions[i];
                let signed = sign(&self.program_id, &function.name, &function.input_types);
                assert(call_ensures(sign, (&self.program_id, &function.name, &function.input_types), signed));
                match signed {
                    Err(m) => Err(AuthorizeError::SigningFailed(m)),
                    Ok(request) => Self::evaluate_root(request, evaluate),
                }
            },
        }
    }

    /// Authorizes a call of the function `function_name` of this program:
    /// the name must be an identifier and the function must exist; `sign`
    /// then signs the root request from the program ID, the function's name
    /// and its input types, and `evaluate` evaluates the call from the
    /// authorization that holds that request, adding the requests of the
    /// further calls that the call makes. The authorization is returned when
    /// both succeed.
    pub fn authorize<S, E>(&self, function_name: &str, sign: S, evaluate: E) -> (r: Result<Authorization, AuthorizeError>)
        where
            S: FnOnce(&String, &Identifier, &Vec<String>) -> Result<Request, String>,
            E: FnOnce(&Authorization) -> Result<Vec<Request>, String>,
        requires
            forall|p: &String, f: &Identifier, t: &Vec<String>| call_requires(sign, (p, f, t)),
            forall|a: &Authorization| call_requires(evaluate, (a,)),
        ensures
            !is_identifier(function_name@) ==> (
                r matches Err(AuthorizeError::InvalidFunctionName { function_name: n })
                && n@ == function_name@),
            is_identifier(function_name@) && has_no_function(self.functions@, function_name@) ==> (
                r matches Err(AuthorizeError::FunctionNotFound { function_name: n })
                && n@ == function_name@),
            is_identifier(function_name@) && !has_no_function(self.functions@, function_name@) ==>
                exists|i: int| is_function_index(self.functions@, function_name@, i),
            forall|i: int| is_identifier(function_name@) && is_function_index(self.functions@, function_name@, i)
                ==> signed_and_evaluated(
                sign,
                evaluate,
                self.program_id,
                self.functions@[i].name,
                self.functions@[i].input_types,
                r,
            ),
    {
        self.authorize_root(function_name, sign, evaluate)
    }

    /// Authorizes a call as `authorize` does, where `execute` executes the
    /// call (checking that its circuits are satisfied) in place of evaluating it.
    pub fn authorize_checked<S, E>(&self, function_name: &str, sign: S, execute: E) -> (r: Result<Authorization, AuthorizeError>)
        where
            S: FnOnce(&String, &Identifier, &Vec<String>) -> Result<Request, String>,
            E: FnOnce(&Authorization) -> Result<Vec<Request>, String>,
        requires
            forall|p: &String, f: &Identifier, t: &Vec<String>| call_requires(sign, (p, f, t)),
            forall|a: &Authorization| call_requires(execute, (a,)),
        ensures
            !is_identifier(function_name@) ==> (
                r matches Err(AuthorizeError::InvalidFunctionName { function_name: n })
                && n@ == function_name@),
            is_identifier(function_name@) && has_no_function(self.functions@, function_name@) ==> (
                r matches Err(AuthorizeError::FunctionNotFound { function_name: n })
                && n@ == function_name@),
            is_identifier(function_name@) && !has_no_function(self.functions@, function_name@) ==>
                exists|i: int| is_function_index(self.functions@, function_name@, i),
            forall|i: int| is_identifier(function_name@) && is_function_index(self.functions@, function_name@, i)
                ==> signed_and_evaluated(
                sign,
                execute,
                self.program_id,
                self.functions@[i].name,
                self.functions@[i].input_types,
                r,
            ),
    {
        self.authorize_root(function_name, sign, execute)
    }

    /// Checks that a request may be authorized as a public credits call:
    /// this program must be `credits.aleo`, and the request's function one of
    /// its public functions.
    pub fn check_credits_public(&self, request: &Request) -> (r: Result<(), AuthorizeError>)
        ensures
            self.program_id@ != credits_program_id() ==> (
                r matches Err(AuthorizeError::NotCreditsProgram { program_id })
                && program_id@ == self.program_id@),
            self.program_id@ == credits_program_id()
                && !public_credits_function_names().contains(request.function_name@) ==> (
                r matches Err(AuthorizeError::NotPublicCreditsFunction { function_name })
                && function_name@ == request.function_name@),
            self.program_id@ == credits_program_id()
                && public_credits_function_names().contains(request.function_name@) ==> r is Ok,
    {
        if self.program_id != "credits.aleo".to_owned() {
            return Err(AuthorizeError::NotCreditsProgram { program_id: self.program_id.clone() });
        }
        let function_name = request.function_name.as_string();
        if !is_public_credits_function(function_name) {
            return Err(AuthorizeError::NotPublicCreditsFunction { function_name: function_name.clone() });
        }
        Ok(())
    }

    /// Authorizes a request to a public function of `credits.aleo`: it must
    /// first pass `check_credits_public`; `evaluate` then evaluates the call from the
    /// authorization that holds the request, adding the requests of the
    /// further calls that the call makes; the authorization is returned on
    /// success.
    pub fn authorize_credits_public<E>(&self, request: Request, evaluate: E) -> (r: Result<Authorization, AuthorizeError>)
        where
            E: FnOnce(&Authorization) -> Result<Vec<Request>, String>,
        requires
            forall|a: &Authorization| call_requires(evaluate, (a,)),
        ensures
            self.program_id@ != credits_program_id() ==> (
                r matches Err(AuthorizeError::NotCreditsProgram { program_id })
                && program_id@ == self.program_id@),
            self.program_id@ == credits_program_id()
                && !public_credits_function_names().contains(request.function_name@) ==> (
                r matches Err(AuthorizeError::NotPublicCreditsFunction { function_name })
                && function_name@ == request.function_name@),
            self.program_id@ == credits_program_id()
                && public_credits_function_names().contains(request.function_name@) ==> evaluated(
                evaluate,
                request,
                r,
            ),
    {
        match self.check_credits_public(&request) {
            Err(e) => Err(e),
            Ok(()) => Self::evaluate_root(request, evaluate),
        }
    }
}

} // verus!
