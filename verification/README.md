# hardware_info

Collects hardware information: BIOS, motherboard and memory modules from the
SMBIOS table, the CPU from `/proc/cpuinfo`, monitors from EDID blocks,
storage devices, graphics adapters (NVIDIA GPUs through NVML) and the
operating system.

The library (`src/`) decodes what the system hands over and decides what to
report; every function there carries a contract checked by Verus:

- `hw::smbios` — SMBIOS structure table decoding (formatted areas, string
  sets, UUIDs), with the raw-record framing of Windows and Linux;
- `hw::bios`, `hw::motherboard`, `hw::memory` — records built from SMBIOS
  structures, with the `/proc/meminfo` fallback;
- `hw::cpu` — the `/proc/cpuinfo` scan and the CPU record;
- `hw::display`, `hw::monitors` — EDID decoding, DRM connectors, and the
  pairing of registry EDID records with active monitors;
- `hw::storage` — `/sys/block` devices, physical-drive queries, storage
  descriptors and logical volumes;
- `hw::gpu` — NVML readings and their merging into listed adapters;
- `hw::os`, `platform`, `types`, `error` — the operating-system records;
- `text` — the text primitives (trimming, lines, decimal numbers) the
  decoders share.

The program (`app/`) reads the files and services, hands their contents to
the library, and prints what it returns.
