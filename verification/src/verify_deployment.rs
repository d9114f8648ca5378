//! The check that a deployment's edition agrees with whether its program is
//! already known to the process, ahead of verifying the deployment itself.

use vstd::prelude::*;

verus! {

/// A deployment of a program: the program's ID and the edition deployed.
pub struct Deployment {
    pub program_id: String,
    pub edition: u16,
}

/// The programs that a process holds, by program ID.
pub struct Process {
    pub programs: Vec<String>,
}

/// Why a deployment was refused.
#[derive(Debug, PartialEq, Eq)]
pub enum DeploymentError {
    /// The edition is zero, but the program already exists.
    ProgramAlreadyExists { program_id: String },
    /// The edition is nonzero, but the program does not exist.
    ProgramDoesNotExist { program_id: String },
    /// Verifying the program and its keys and certificates failed.
    Rejected(String),
}

/// The process holds a program with this ID.
pub open spec fn holds_program(programs: Seq<String>, program_id: Seq<char>) -> bool {
    exists|i: int| 0 <= i < programs.len() && (#[trigger] programs[i])@ == program_id
}

/// The edition check refuses the deployment: the edition is zero and the
/// program exists, or the edition is nonzero and the program does not.
pub open spec fn edition_check_fails(process: Process, deployment: Deployment) -> bool {
    if deployment.edition == 0 {
        holds_program(process.programs@, deployment.program_id@)
    } else {
        !holds_program(process.programs@, deployment.program_id@)
    }
}

/// A process holds every program in its list, at every position, the first
/// included; and it holds no program that is not in its list.
pub proof fn lemma_holds_program_members(programs: Seq<String>, program_id: Seq<char>)
    ensures
        forall|i: int| 0 <= i < programs.len() ==> holds_program(programs, #[trigger] programs[i]@),
        !holds_program(programs, program_id) ==> forall|i: int|
            0 <= i < programs.len() ==> (#[trigger] programs[i])@ != program_id,
        programs.len() == 0 ==> !holds_program(programs, program_id),
{
    assert forall|i: int| 0 <= i < programs.len() implies holds_program(programs, #[trigger] programs[i]@) by {
        assert(programs[i]@ == programs[i]@);
    }
}

/// The edition check refuses an edition-zero deployment of a program that
/// the process holds, at any position, and accepts a later edition of it;
/// it accepts an edition-zero deployment of a program that the process does
/// not hold and refuses a later edition of it.
pub proof fn lemma_edition_check(process: Process, deployment: Deployment, i: int)
    requires
        0 <= i < process.programs@.len(),
    ensures
        process.programs@[i]@ == deployment.program_id@ ==> (
            edition_check_fails(process, deployment) <==> deployment.edition == 0),
        (forall|j: int| 0 <= j < process.programs@.len() ==> (#[trigger] process.programs@[j])@ != deployment.program_id@)
            ==> (edition_check_fails(process, deployment) <==> deployment.edition != 0),
{
    lemma_holds_program_members(process.programs@, deployment.program_id@);
}

impl Process {
    /// Whether the process holds a program with the given ID.
    pub fn contains_program(&self, program_id: &String) -> (b: bool)
        ensures
            b == holds_program(self.programs@, program_id@),
    {
        let n = self.programs.len();
        for i in 0..n
            invariant
                n == self.programs@.len(),
                forall|j: int| 0 <= j < i ==> (#[trigger] self.programs@[j])@ != program_id@,
        {
            if self.programs[i] == *program_id {
                return true;
            }
        }
        false
    }

    /// Checks a deployment's edition against the programs held: an edition
    /// of zero requires that the program does not exist yet, and a nonzero
    /// edition that it does.
    pub fn check_edition(&self, deployment: &Deployment) -> (r: Result<(), DeploymentError>)
        ensures
            deployment.edition == 0 && holds_program(self.programs@, deployment.program_id@) ==> (
                r matches Err(DeploymentError::ProgramAlreadyExists { program_id })
                && program_id@ == deployment.program_id@),
            deployment.edition != 0 && !holds_program(self.programs@, deployment.program_id@) ==> (
                r matches Err(DeploymentError::ProgramDoesNotExist { program_id })
                && program_id@ == deployment.program_id@),
            !edition_check_fails(*self, *deployment) ==> r is Ok,
    {
        let program_id = &deployment.program_id;
        let exists = self.contains_program(program_id);
        if deployment.edition == 0 {
            if exists {
                return Err(DeploymentError::ProgramAlreadyExists { program_id: program_id.clone() });
            }
        } else {
            if !exists {
                return Err(DeploymentError::ProgramDoesNotExist { program_id: program_id.clone() });
            }
        }
        Ok(())
    }

    /// Verifies a deployment: it must first pass `check_edition`; only then
    /// is `verify_program` run (which checks that the program is well formed
    /// and that its verifying keys and certificates are valid), and its
    /// outcome is the result.
    pub fn verify_deployment<F>(&self, deployment: &Deployment, verify_program: F) -> (r: Result<(), DeploymentError>)
        where
            F: FnOnce(&Deployment) -> Result<(), String>,
        requires
            call_requires(verify_program, (deployment,)),
        ensures
            deployment.edition == 0 && holds_program(self.programs@, deployment.program_id@) ==> (
                r matches Err(DeploymentError::ProgramAlreadyExists { program_id })
                && program_id@ == deployment.program_id@),
            deployment.edition != 0 && !holds_program(self.programs@, deployment.program_id@) ==> (
                r matches Err(DeploymentError::ProgramDoesNotExist { program_id })
                && program_id@ == deployment.program_id@),
            !edition_check_fails(*self, *deployment) ==> exists|outcome: Result<(), String>| {
                &&& #[trigger] call_ensures(verify_program, (deployment,), outcome)
                &&& match outcome {
                    Ok(()) => r is Ok,
                    Err(m) => r == Err::<(), DeploymentError>(DeploymentError::Rejected(m)),
                }
            },
    {
        if let Err(e) = self.check_edition(deployment) {
            return Err(e);
        }
        let outcome = verify_program(deployment);
        assert(call_ensures(verify_program, (deployment,), outcome));
        match outcome {
            Ok(()) => Ok(()),
            Err(m) => Err(DeploymentError::Rejected(m)),
        }
    }
}

} // verus!
