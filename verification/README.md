# ssroute

A transparent Shadowsocks routing daemon for Linux, with its logic verified in
Verus. It creates a TUN interface, loads IP routes from JSON files, and forwards
TCP and UDP packets through a Shadowsocks server. Echo requests are answered on
the spot.

## Layout

`src/` is the library. All of it is verified but the functions named below under
"What is taken on trust".

| Module | Subject |
|--------|---------|
| `bytes`, `checksum`, `text`, `order` | bytes, the Internet checksum, texts and their order |
| `addr`, `addr_text`, `addr_laws` | IP addresses and their textual forms |
| `packet`, `response`, `response_laws`, `icmp` | reading packets, building answers, echo replies |
| `conn`, `tunnel`, `tunnel_laws` | connection tracking and the decisions of the tunnel |
| `config`, `cli` | the configuration file and the command line |
| `route`, `route_file`, `route_loader`, `route_laws` | destinations, gateways, route files and their loading |
| `server`, `plugin` | the Shadowsocks server and SIP003 plugins |
| `tun`, `daemon` | the interface, and what the program does in each mode |
| `stats` | counters of added routes |

Proof functions named `law_...` state what holds of the library as a whole.

`app/` is the program around the library: sockets, netlink, D-Bus, processes and
files. It performs what the library decides and reports what came of it.

## What is taken on trust

The library calls `serde_json` and `shadowsocks`, and `str::to_lowercase` of the
standard library, through functions marked `external_body`. The comment above
each says what is claimed of the outside function. They are `to_lower` in `text`,
`from_json` in `route_file`, and `knows_cipher`, `split_server_addr` and
`try_server` in `server`.

## IPv6 packets from the client

The protocol of an IPv6 packet from the client is read from its fifth byte, unless
the packet is an echo request.
