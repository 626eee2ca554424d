# kazam

Firmware library for an ESP32 device with flash storage and a Bluetooth LE
peripheral, verified with Verus.

- `src/` is the verified library:
  - `storage::nvs`: how typed values are stored in and read back from the
    flash key-value map (little-endian codec of `sequential-storage`, zero for
    a missing key, blob copies).
  - `storage::littlefs`: the LittleFS block-device adapter (addresses, erase
    ranges, results) and the probe / format / mount sequence at start-up.
  - `connectivity::ble`: device name, advertising payload, and the handling of
    GATT events with the sensor read counter.
- `app/` holds the hardware side: the shared flash peripheral, the global
  map and file system, async tasks and the Bluetooth stack.
- `tests/` exercises the library on concrete values.
