# zoom_capture

Passive capture of Zoom traffic for research and education, on the Retina
packet-processing framework. Every UDP payload whose source or destination
is a published Zoom server address is parsed as Zoom's two-layer header
(SFU Encapsulation, then Media Encapsulation), classified by its Media Type
byte, counted, and written as one CSV row.

## Layout

- `src/` — the verified library (Verus):
  - `common/headers.rs`: SFU and Media Encapsulation header parsing,
    `MediaType` classification, RTP offsets, the RTP version check.
  - `common/ip_ranges.rs`: Zoom's published ports and IPv4/IPv6 server
    ranges, CIDR membership, and the reader for the published CIDR text.
  - `common/writer.rs`: the per-packet record, its labels and its CSV
    columns (decimal rendering included).
  - `common/stats.rs`: the shared atomic counters and the summary line.
  - `capture_logic/zoom/udp.rs`: the IP-gated classification of one packet
    and how it is counted.
- `app/` — the binary: command line, Retina callbacks, reading endpoint
  texts as addresses, the output file.
- `tests/` — tests of the library.

The time column of the CSV (seconds with six decimals) is rendered by the
binary; every other column comes from the library.
