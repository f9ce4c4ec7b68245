# STM32 - SPDM demo

An SPDM (Security Protocols and Data Models) requester and responder that talk MCTP over
I2C. The requester runs on a STM32H753, the responder on a STM32U5A5.

The message flow is

- the VCA stage: version, capabilities, algorithms
- get digests
- get certificates
- challenge - response

## Layout

`src/` holds what the firmware decides, written and proved in Verus:

- `transport`: sending requests and responses, and waiting for them
- `sender`: sending a message as a series of I2C frames
- `requester`, `responder`: the SPDM flow of either role
- `server`: the task that keeps the MCTP router going
- `capabilities`, `cert_chain`: what a device can do, the length of the
  certificate chain
- `outside`: what is taken from the `mctp` crate without proof

`transport_laws`, `sender_laws` and `requester_laws` state what holds of whole operations,
whatever the bus, the MCTP stack and the peer do.

`app/` holds what the firmware does: chip bring-up, the I2C driver, the MCTP router and the
SPDM stack. It performs the actions that the library names and reports their outcomes.
