# ostrich_protocol

The status-notification message of the ostrich proxy's control protocol, with
its protobuf wire encoding, and the decisions that set up a TUN inbound and a
Windows route, as a library verified with Verus.

- `src/wire.rs`: base-128 varints, field tags and `int32` fields as spec
  functions, with the lemmas that read an encoding back.
- `src/unknown.rs`: the unknown fields that the protobuf runtime keeps, how
  one is read, how they are written.
- `src/runtime.rs`: the trusted items that call the `protobuf` runtime.
- `src/notification.rs`: `StatusNotification`, `StatusRequest` (merge, parse,
  size, write, clear) and the laws that relate them.
- `src/tun_inbound.rs`: fake-DNS mode and TUN device choice.
- `src/route.rs`: the forward-table row of a direct route and the meaning of
  the IP helper's answer.
- `app/`: the protobuf runtime's traits and reflection for the message, the
  TUN device configuration, and the Windows system call.
