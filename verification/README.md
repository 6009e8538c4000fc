# review

Streams the screen of a reMarkable tablet to a computer. A server on the tablet reads
the framebuffer, compresses each frame and sends it over TCP; the client on the
computer authenticates with the user's SSH keys, tells the server how to stream, and
receives the frames.

The library in `src/` holds the logic, verified with Verus:

- `version`: reading the hardware and firmware versions from the tablet's system
  files, displaying firmware versions, and their order;
- `config`: the framebuffer location and pixel layout for each tablet and firmware
  generation;
- `frame`: frame geometry and the compressed frames on the wire;
- `process`: locating the framebuffer in the memory of the `xochitl` process;
- `auth`: the authentication messages, the signatures they carry, the choice of the
  authorized key, and (in `auth::keys`) the client's private keys and the
  signatures it makes with them;
- `options`: how the client resolves its options, port numbers included;
- `text`: trimming, splitting and decimal numbers.

`app/` holds the two programs around it: networking, files, processes, logging and
the command line (`review server`, `review client`).
