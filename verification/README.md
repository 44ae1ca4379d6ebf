# telemetry-parser

Telemetry extraction for action-camera clips, used by the mobile bindings and
the `extract-metadata` tool. The library in `src/` is verified with Verus:

- `src/tags.rs` – the decoded GPMF tag structure the logic reads (float
  payloads kept as IEEE-754 bit patterns).
- `src/text.rs` – Unicode white-space trimming and comma splitting of tag text.
- `src/search.rs` – "first usable element" searches and their lemmas.
- `src/gpmf_lens.rs` – GoPro lens calibration (VFOV, ZFOV, POLY, PYCF, DVID, …):
  each field takes the first usable value along the clip.
- `src/mobile.rs` – the handle registry of parsed clips, GPS reading selection,
  and the video-info record.
- `src/ios.rs` – the last-error slot of the C interface.

`app/` holds what is not verified: JSON copies of the records, the float
conversions, the process-wide registry, the iOS C and Android JNI entry points
and the `extract-metadata` command line tool.
