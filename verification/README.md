# area_translator

A D-Bus service that reads English text from a selected screen area (screen-cast portal,
PipeWire, GStreamer), recognises it with Google Cloud Vision and shows its Brazilian
Portuguese translation (Google Cloud Translation) as a subtitle in GNOME Shell.

## Layout

- `src/` — the library, verified with Verus:
  - `model` — regions, monitors, capture layouts, frames, image fingerprints and the
    text gate that confirms a phrase only after repeated agreeing readings;
  - `text` — whitespace normalisation and small character-sequence helpers;
  - `capture` — cropping of raw BGRx/RGBx buffers, sample throttling, the frozen
    selection preview and the crop previews;
  - `image` — PNG encoding (`png` crate) and Base64 (`base64` crate) behind trusted wrappers;
  - `cache` — the translation cache (`lru` crate) behind trusted wrappers;
  - `ocr`, `translate` — the encoding of the crop sent to Cloud Vision (grayscale PNG in
    Base64) and the interpretation of Cloud Vision and Cloud Translation replies; the
    JSON request bodies are built in `app/`;
  - `service` — the status snapshot and the API key check;
  - `engine` — `EngineCore`, the engine's decisions as state transitions that return the
    effects to perform (publish a status, send a translation request, pause the capture…);
  - `laws` — properties that span several engine and text-gate operations.
- `app/` — the program around the library: D-Bus interface (zbus), portal and GStreamer
  capture, HTTP clients (reqwest), the Tokio event loop that performs the engine's effects,
  and serialisable copies of the library's types.
- `tests/` — tests of the library on concrete values.

Times in the library are milliseconds of the service's monotonic clock.
