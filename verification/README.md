# async-ping

ICMP echo ("ping") for IPv4 and IPv6. What a ping computes is a library verified
with [Verus](https://github.com/verus-lang/verus); the sockets around it are
Tokio and `socket2`.

| Module          | Contents                                                          |
|-----------------|-------------------------------------------------------------------|
| `src/bytes`     | Network byte order                                                |
| `src/checksum`  | The Internet checksum (RFC 1071)                                  |
| `src/control`   | The IPv6 hop limit in a `recvmsg` control buffer                  |
| `src/echo`      | Echo requests, the filter for their replies, and reply decoding   |
| `src/error`     | Errors of the ping logic                                          |
| `src/ping`      | A series of probes: what is sent when, what is reported           |
| `src/stats`     | Minimum, mean, maximum and standard deviation of round-trip times |
| `src/time`      | Durations and the timestamp that a probe carries                  |
| `app/`          | Name resolution, raw sockets, the clock, and the async functions  |

`app` offers `ping`, `send_icmp_echo_v4`, `send_icmp_echo_v6` and `IcmpSocket`.
Raw sockets need `CAP_NET_RAW` or root.

## What is proved

Each executable function has a contract that says what it returns for every
input it takes. One number is the system's own, the type of a hop-limit message;
there the contract says what holds on every system. On top of these stand laws, public proof functions named `law_...`, among
them:

- the echo of a request is accepted as its reply, the request itself is not, and
  no datagram answers two requests;
- every IPv4 request carries a checksum that verifies;
- listening ends with the first matching reply or with a timeout;
- a series sends exactly as many probes as asked for, whatever is lost, and
  reports them;
- round-trip statistics are ordered and do not depend on the order of replies;
- the hop limit that a system writes is the one that is read.

## What is trusted

- `u128::isqrt` returns the square root rounded down.
- `u16::from_ne_bytes` reads its bytes in the order of the hardware.
- `libc::IPPROTO_IPV6`, `libc::IPV6_HOPLIMIT` and the size of `libc::cmsghdr` are
  those of the system.
