//! decisions taken when driving the state of slaves: the requests to send and what their answers mean
use vstd::prelude::*;
use crate::error::{EthercatError, EthercatResult};
use crate::registers::{
    AlState, AlError, AlStatus, AlControlRequest, AlControlResponse, al_state_code, al_state_of_code,
    al_error_of_code,
};

verus! {

/// the state of communication of a slave, as named by the slaves' users
pub type CommunicationState = AlState;

/// the current state of a slave, given its AL status register
pub fn state_of(status: &AlStatus) -> (r: EthercatResult<AlState>)
    ensures
        match al_state_of_code(status.state) {
            Some(state) => r == Ok::<AlState, EthercatError>(state),
            None => r == Err::<AlState, EthercatError>(EthercatError::Protocol("undefined slave state")),
        },
{
    match AlState::from_code(status.state) {
        Some(state) => Ok(state),
        None => Err(EthercatError::Protocol("undefined slave state")),
    }
}

/// the AL control register requesting the state `target`, acknowledging the previous status change, and asking for an identification instead of an error code if `request_id`
pub fn switch_request(target: AlState, request_id: bool) -> (r: AlControlRequest)
    ensures
        r == (AlControlRequest { state: al_state_code(target), ack: true, request_id, reserved: 0 }),
{
    AlControlRequest { state: target.code(), ack: true, request_id, reserved: 0 }
}

/// what the AL response register of a slave tells about a requested state switch
#[derive(Copy, Clone, Debug, PartialEq, Eq, Structural)]
pub enum SwitchStep {
    /// the slave reached the requested state
    Done,
    /// the slave reported an error, to be read in its AL error register
    Failed,
    /// the switch is still in progress
    Pending,
}

/// the progress of a switch to `target`, given the AL response register of the slave
pub fn switch_step(response: &AlControlResponse, target: AlState) -> (r: SwitchStep)
    ensures
        response.error ==> r == SwitchStep::Failed,
        !response.error && response.state == al_state_code(target) ==> r == SwitchStep::Done,
        !response.error && response.state != al_state_code(target) ==> r == SwitchStep::Pending,
{
    if response.error {
        SwitchStep::Failed
    } else if response.state == target.code() {
        SwitchStep::Done
    } else {
        SwitchStep::Pending
    }
}

/// outcome of a failed switch, given the code read in the AL error register: an error code meaning no error ends the switch successfully
pub fn switch_error(code: u16) -> (r: EthercatResult<(), AlError>)
    ensures
        match al_error_of_code(code) {
            Some(AlError::NoError) => r is Ok,
            Some(e) => r == Err::<(), EthercatError<AlError>>(EthercatError::Slave(e)),
            None => r == Err::<(), EthercatError<AlError>>(EthercatError::Protocol("undefined slave error")),
        },
{
    match AlError::from_code(code) {
        Some(AlError::NoError) => Ok(()),
        Some(e) => Err(EthercatError::Slave(e)),
        None => Err(EthercatError::Protocol("undefined slave error")),
    }
}

/// progress of a switch of all slaves to `target`, given the AL response register read on all of them: done, pending, or failed
pub fn broadcast_switch_step(response: &AlControlResponse, target: AlState) -> (r: EthercatResult<bool>)
    ensures
        response.error ==> r == Err::<bool, EthercatError>(EthercatError::Slave(())),
        !response.error ==> r == Ok::<bool, EthercatError>(response.state == al_state_code(target)),
{
    if response.error {
        return Err(EthercatError::Slave(()));
    }
    Ok(response.state == target.code())
}

} // verus!
